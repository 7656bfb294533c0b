//! Package specs of the form `name` or `name==version`.
use vstd::prelude::*;
use vstd::string::*;
use crate::reconcile::InstallError;

verus! {

/// What `char::is_alphanumeric` decides for `c`.
pub uninterp spec fn alnum(c: char) -> bool;

pub open spec fn is_ascii_alnum(c: char) -> bool {
    ('a' <= c && c <= 'z') || ('A' <= c && c <= 'Z') || ('0' <= c && c <= '9')
}

/// Relies on `char::is_alphanumeric`: Unicode alphabetic or numeric, which on
/// ASCII are exactly the letters and the digits.
#[verifier::external_body]
fn is_alphanumeric(c: char) -> (r: bool)
    ensures
        r == alnum(c),
        (c as u32) < 128 ==> r == is_ascii_alnum(c),
{
    c.is_alphanumeric()
}

/// The punctuation a package spec may hold besides letters and digits.
pub open spec fn is_spec_punct(c: char) -> bool {
    c == '.' || c == '_' || c == '-' || c == '=' || c == '<' || c == '>' || c == '~' || c == '!'
}

/// Letters and digits (Unicode ones beyond ASCII) and the spec punctuation.
pub open spec fn allowed_char(c: char) -> bool {
    (if (c as u32) < 128 {
        is_ascii_alnum(c)
    } else {
        alnum(c)
    }) || is_spec_punct(c)
}

/// Why a package spec is refused.
#[derive(Clone, Copy, Debug, PartialEq, Eq, Structural)]
pub enum SpecError {
    Empty,
    InvalidChar,
}

/// Accepts a non-empty spec made only of alphanumeric characters and the
/// punctuation `. _ - = < > ~ !`.
pub fn validate_package_name(pkg: &str) -> (r: Result<(), SpecError>)
    ensures
        pkg@.len() == 0 <==> r == Err::<(), SpecError>(SpecError::Empty),
        r == Err::<(), SpecError>(SpecError::InvalidChar) <==> (pkg@.len() > 0 && exists|i: int|
            0 <= i < pkg@.len() && !allowed_char(#[trigger] pkg@[i])),
        r is Ok <==> (pkg@.len() > 0 && forall|i: int|
            0 <= i < pkg@.len() ==> allowed_char(#[trigger] pkg@[i])),
{
    let n = pkg.unicode_len();
    if n == 0 {
        return Err(SpecError::Empty);
    }
    let mut i: usize = 0;
    while i < n
        invariant
            n == pkg@.len(),
            0 <= i <= n,
            forall|j: int| 0 <= j < i ==> allowed_char(#[trigger] pkg@[j]),
        decreases n - i,
    {
        let c = pkg.get_char(i);
        let ok = is_alphanumeric(c) || c == '.' || c == '_' || c == '-' || c == '=' || c == '<'
            || c == '>' || c == '~' || c == '!';
        if !ok {
            return Err(SpecError::InvalidChar);
        }
        i = i + 1;
    }
    Ok(())
}

/// Checks made before an install: the environment must exist, then the spec
/// must be valid.
pub fn check_install(pkg: &str, env_exists: bool) -> (r: Result<(), InstallError>)
    ensures
        !env_exists ==> r == Err::<(), InstallError>(InstallError::EnvMissing),
        env_exists ==> (r is Ok <==> (pkg@.len() > 0 && forall|i: int|
            0 <= i < pkg@.len() ==> allowed_char(#[trigger] pkg@[i]))),
        env_exists && r is Err ==> (r matches Err(InstallError::InvalidSpec(p)) && p@ == pkg@),
{
    if !env_exists {
        return Err(InstallError::EnvMissing);
    }
    match validate_package_name(pkg) {
        Ok(()) => Ok(()),
        Err(_) => Err(InstallError::InvalidSpec(String::from_str(pkg))),
    }
}

/// `==` starts at index `i` of `s`.
pub open spec fn sep_at(s: Seq<char>, i: int) -> bool {
    0 <= i && i + 1 < s.len() && s[i] == '=' && s[i + 1] == '='
}

/// Splits `name==version` at the first `==`; a spec without one is a bare
/// name.
pub fn parse_version(pkg: &str) -> (r: (String, Option<String>))
    ensures
        match r.1 {
            Some(v) => exists|p: int|
                sep_at(pkg@, p) && (forall|q: int| 0 <= q < p ==> !sep_at(pkg@, q)) && r.0@ == pkg@.take(p)
                    && v@ == pkg@.skip(p + 2),
            None => (forall|q: int| !sep_at(pkg@, q)) && r.0@ == pkg@,
        },
{
    let n = pkg.unicode_len();
    let mut i: usize = 0;
    while n > 0 && i < n - 1
        invariant
            n == pkg@.len(),
            0 <= i <= n,
            forall|q: int| 0 <= q < i ==> !sep_at(pkg@, q),
        decreases n - i,
    {
        if pkg.get_char(i) == '=' && pkg.get_char(i + 1) == '=' {
            let name = String::from_str(pkg.substring_char(0, i));
            let version = String::from_str(pkg.substring_char(i + 2, n));
            assert(sep_at(pkg@, i as int));
            return (name, Some(version));
        }
        i = i + 1;
    }
    assert forall|q: int| !sep_at(pkg@, q) by {
        if 0 <= q && q >= i {
            assert(q + 1 >= n);
        }
    }
    (String::from_str(pkg), None)
}

pub open spec fn spec_of(name: Seq<char>, version: Seq<char>) -> Seq<char> {
    name + seq!['=', '='] + version
}

/// The install spec `name==version`.
pub fn package_spec(name: &str, version: &str) -> (r: String)
    ensures
        r@ == spec_of(name@, version@),
{
    proof { reveal_strlit("=="); }
    let mut s = String::from_str(name);
    s.append("==");
    s.append(version);
    s
}

/// One `name==version` line per entry, in order.
pub open spec fn requirement_lines(m: Seq<(Seq<char>, Seq<char>)>) -> Seq<char>
    decreases m.len(),
{
    if m.len() == 0 {
        seq![]
    } else {
        requirement_lines(m.drop_last()) + spec_of(m.last().0, m.last().1) + seq!['\n']
    }
}

/// The text of a requirements file for the given packages.
pub fn requirements_text(packages: &Vec<(String, String)>) -> (r: String)
    ensures
        r@ == requirement_lines(crate::reconcile::entries(packages@)),
{
    let ghost m = crate::reconcile::entries(packages@);
    let mut s = String::new();
    let mut i: usize = 0;
    while i < packages.len()
        invariant
            m == crate::reconcile::entries(packages@),
            0 <= i <= packages.len(),
            s@ == requirement_lines(m.take(i as int)),
        decreases packages.len() - i,
    {
        proof { reveal_strlit("=="); reveal_strlit("\n"); }
        s.append(packages[i].0.as_str());
        s.append("==");
        s.append(packages[i].1.as_str());
        s.append("\n");
        proof {
            assert(m.take(i + 1).drop_last() =~= m.take(i as int));
            assert(m.take(i + 1).last() == m[i as int]);
            assert(m[i as int] == (packages@[i as int].0@, packages@[i as int].1@));
            assert(s@ =~= requirement_lines(m.take(i + 1)));
        }
        i = i + 1;
    }
    assert(m.take(i as int) =~= m);
    s
}

/// The names joined by `, `.
pub open spec fn joined(s: Seq<Seq<char>>) -> Seq<char>
    decreases s.len(),
{
    if s.len() == 0 {
        seq![]
    } else if s.len() == 1 {
        s[0]
    } else {
        joined(s.drop_last()) + seq![',', ' '] + s.last()
    }
}

/// The names joined by `, `, as the failure report lists them.
pub fn join_names(names: &Vec<String>) -> (r: String)
    ensures
        r@ == joined(crate::reconcile::names(names@)),
{
    let ghost v = crate::reconcile::names(names@);
    let mut s = String::new();
    let mut i: usize = 0;
    while i < names.len()
        invariant
            v == crate::reconcile::names(names@),
            0 <= i <= names.len(),
            s@ == joined(v.take(i as int)),
        decreases names.len() - i,
    {
        proof { reveal_strlit(", "); }
        if i > 0 {
            s.append(", ");
        }
        s.append(names[i].as_str());
        proof {
            assert(v.take(i + 1).drop_last() =~= v.take(i as int));
            assert(v.take(i + 1).last() == v[i as int]);
            assert(v[i as int] == names@[i as int]@);
            if i == 0 {
                assert(v.take(1)[0] == v[0]);
            }
            assert(s@ =~= joined(v.take(i + 1)));
        }
        i = i + 1;
    }
    assert(v.take(i as int) =~= v);
    s
}

} // verus!
