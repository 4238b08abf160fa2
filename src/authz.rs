//! The authorization validator: every scope that a descriptor targets must be
//! among the caller's authorized scopes, unless it is a universal one.

use vstd::prelude::*;

verus! {

/// The code of `c` with ASCII upper-case letters taken to lower case.
pub open spec fn ascii_lower(c: char) -> u32 {
    if 'A' <= c && c <= 'Z' {
        (c as u32 + 32) as u32
    } else {
        c as u32
    }
}

/// Whether `a` and `b` are equal up to ASCII case.
pub open spec fn same_ignoring_ascii_case(a: Seq<char>, b: Seq<char>) -> bool {
    a.len() == b.len() && forall|i: int| 0 <= i < a.len() ==> ascii_lower(a[i]) == ascii_lower(b[i])
}

/// The scopes that every caller may target: `compute`, `application` and
/// `application_uan`, in any ASCII case.
pub open spec fn is_universal(scope: Seq<char>) -> bool {
    same_ignoring_ascii_case(scope, seq!['c', 'o', 'm', 'p', 'u', 't', 'e'])
        || same_ignoring_ascii_case(scope, seq!['a', 'p', 'p', 'l', 'i', 'c', 'a', 't', 'i', 'o', 'n'])
        || same_ignoring_ascii_case(
        scope,
        seq!['a', 'p', 'p', 'l', 'i', 'c', 'a', 't', 'i', 'o', 'n', '_', 'u', 'a', 'n'],
    )
}

/// Whether `scopes` lists `scope`.
pub open spec fn lists(scopes: Seq<String>, scope: Seq<char>) -> bool {
    exists|k: int| 0 <= k < scopes.len() && #[trigger] scopes[k]@ == scope
}

/// Whether a caller authorized for `authorized` may target `scope`.
pub open spec fn permitted(scope: Seq<char>, authorized: Seq<String>) -> bool {
    is_universal(scope) || lists(authorized, scope)
}

/// Whether every scope of `scopes` is permitted.
pub open spec fn all_permitted(scopes: Seq<String>, authorized: Seq<String>) -> bool {
    forall|i: int| 0 <= i < scopes.len() ==> permitted(#[trigger] scopes[i]@, authorized)
}

/// Whether `i` is the first position of `scopes` whose scope is not permitted.
pub open spec fn first_refused(scopes: Seq<String>, authorized: Seq<String>, i: int) -> bool {
    0 <= i < scopes.len() && !permitted(scopes[i]@, authorized) && forall|j: int|
        0 <= j < i ==> permitted(#[trigger] scopes[j]@, authorized)
}

/// A scope that the caller may not target, with the scopes that it may.
#[derive(Debug)]
pub struct AuthorizationError {
    pub scope: String,
    pub authorized: Vec<String>,
}

fn lower_code(c: char) -> (r: u32)
    ensures
        r == ascii_lower(c),
{
    let v = c as u32;
    if 'A' <= c && c <= 'Z' {
        v + 32
    } else {
        v
    }
}

/// Compares `a` with `b` up to ASCII case.
pub fn eq_ignore_ascii_case(a: &str, b: &str) -> (r: bool)
    ensures
        r == same_ignoring_ascii_case(a@, b@),
{
    let n = a.unicode_len();
    if n != b.unicode_len() {
        return false;
    }
    let mut i: usize = 0;
    while i < n
        invariant
            n == a@.len(),
            n == b@.len(),
            i <= n,
            forall|k: int| 0 <= k < i ==> ascii_lower(a@[k]) == ascii_lower(b@[k]),
        decreases n - i,
    {
        if lower_code(a.get_char(i)) != lower_code(b.get_char(i)) {
            return false;
        }
        i = i + 1;
    }
    true
}

/// Whether `scope` is one of the universal scopes, exempt from checking.
pub fn is_universal_scope(scope: &str) -> (r: bool)
    ensures
        r == is_universal(scope@),
{
    let compute = "compute";
    let application = "application";
    let application_uan = "application_uan";
    proof {
        reveal_strlit("compute");
        reveal_strlit("application");
        reveal_strlit("application_uan");
    }
    assert(compute@ =~= seq!['c', 'o', 'm', 'p', 'u', 't', 'e']);
    assert(application@ =~= seq!['a', 'p', 'p', 'l', 'i', 'c', 'a', 't', 'i', 'o', 'n']);
    assert(application_uan@ =~= seq![
        'a', 'p', 'p', 'l', 'i', 'c', 'a', 't', 'i', 'o', 'n', '_', 'u', 'a', 'n',
    ]);
    eq_ignore_ascii_case(scope, compute) || eq_ignore_ascii_case(scope, application)
        || eq_ignore_ascii_case(scope, application_uan)
}

/// Whether `scopes` lists `scope`.
pub fn contains_scope(scopes: &Vec<String>, scope: &String) -> (r: bool)
    ensures
        r == lists(scopes@, scope@),
{
    let mut k: usize = 0;
    while k < scopes.len()
        invariant
            k <= scopes.len(),
            forall|m: int| 0 <= m < k ==> scopes@[m]@ != scope@,
        decreases scopes.len() - k,
    {
        if scopes[k] == *scope {
            return true;
        }
        k = k + 1;
    }
    false
}

/// Copies a list of strings.
pub fn copy_strings(items: &Vec<String>) -> (r: Vec<String>)
    ensures
        r@ == items@,
{
    let mut out: Vec<String> = Vec::new();
    let mut k: usize = 0;
    while k < items.len()
        invariant
            k <= items.len(),
            out@ == items@.subrange(0, k as int),
        decreases items.len() - k,
    {
        out.push(items[k].clone());
        k = k + 1;
        assert(out@ =~= items@.subrange(0, k as int));
    }
    assert(items@.subrange(0, items.len() as int) =~= items@);
    out
}

/// Checks every scope of `scopes` against `authorized`. Fails on the first
/// one that is neither universal nor authorized, naming it and the
/// authorized scopes.
pub fn check_scopes(scopes: &Vec<String>, authorized: &Vec<String>) -> (r: Result<(), AuthorizationError>)
    ensures
        r is Ok <==> all_permitted(scopes@, authorized@),
        r matches Err(e) ==> e.authorized@ == authorized@ && exists|i: int|
            first_refused(scopes@, authorized@, i) && e.scope@ == scopes@[i]@,
{
    let mut i: usize = 0;
    while i < scopes.len()
        invariant
            i <= scopes.len(),
            forall|j: int| 0 <= j < i ==> permitted(#[trigger] scopes@[j]@, authorized@),
        decreases scopes.len() - i,
    {
        let scope = &scopes[i];
        if !is_universal_scope(scope.as_str()) && !contains_scope(authorized, scope) {
            assert(first_refused(scopes@, authorized@, i as int));
            return Err(AuthorizationError { scope: scope.clone(), authorized: copy_strings(authorized) });
        }
        i = i + 1;
    }
    Ok(())
}

/// Whether a realm role of the caller's token is a bookkeeping role of the
/// identity provider rather than a scope: `offline_access` or
/// `uma_authorization`.
pub open spec fn is_bookkeeping_role(role: Seq<char>) -> bool {
    role == "offline_access"@ || role == "uma_authorization"@
}

/// The caller's authorized scopes: its realm roles, in order, without the
/// bookkeeping ones.
pub open spec fn scopes_of_roles(roles: Seq<String>) -> Seq<String>
    decreases roles.len(),
{
    if roles.len() == 0 {
        Seq::empty()
    } else if is_bookkeeping_role(roles.last()@) {
        scopes_of_roles(roles.drop_last())
    } else {
        scopes_of_roles(roles.drop_last()).push(roles.last())
    }
}

/// Derives the caller's authorized scopes from the realm roles of its token.
pub fn scopes_from_roles(roles: &Vec<String>) -> (r: Vec<String>)
    ensures
        r@ == scopes_of_roles(roles@),
{
    let offline = String::from_str("offline_access");
    let uma = String::from_str("uma_authorization");
    let mut out: Vec<String> = Vec::new();
    let mut i: usize = 0;
    while i < roles.len()
        invariant
            offline@ == "offline_access"@,
            uma@ == "uma_authorization"@,
            i <= roles.len(),
            out@ == scopes_of_roles(roles@.subrange(0, i as int)),
        decreases roles.len() - i,
    {
        assert(roles@.subrange(0, i + 1).drop_last() =~= roles@.subrange(0, i as int));
        if roles[i] != offline && roles[i] != uma {
            out.push(roles[i].clone());
        }
        i = i + 1;
    }
    assert(roles@.subrange(0, roles.len() as int) =~= roles@);
    out
}

} // verus!
