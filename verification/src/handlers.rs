//! The edit operations on the two registries, as the user writes them:
//! `+name=value` and `-name` for variables, `+app=template,target` and `-app`
//! for apps.

use vstd::prelude::*;
use crate::text::{chars_of, find_from, lemma_span, span, string_of, trim, trimmed};
use crate::utility::{AppEntry, Apps, Vars};

verus! {

/// Why an operation changed nothing.
#[derive(Debug, Clone)]
pub enum OpError {
    /// The operation adds, but lacks its `=`, names a variable by the empty
    /// name or, for an app, lacks the `,` between template and target.
    Usage,
    /// The operation removes a name that is not in the registry.
    NotFound { name: String },
    /// The operation starts with neither `+` nor `-`.
    UnknownOperation,
}

/// What an operation did.
#[derive(Debug, Clone)]
pub enum Change {
    /// The entry under `name` was created or overwritten.
    Put { name: String },
    /// The entry under `name` was removed.
    Removed { name: String },
}

/// What an operation string asks for, with values of type `T`.
pub enum Intent<T> {
    Put(Seq<char>, T),
    Remove(Seq<char>),
    Malformed,
    Unknown,
}

/// The reading of an operation on variables. The name ends at the first `=`
/// and is not empty; the value is all that follows the `=`.
pub open spec fn vars_intent(op: Seq<char>) -> Intent<Seq<char>> {
    if op.len() > 0 && op[0] == '+' {
        let eq: int = 1 + span(op, 1, '=') as int;
        if 1 < eq && eq < op.len() {
            Intent::Put(op.subrange(1, eq), op.subrange(eq + 1, op.len() as int))
        } else {
            Intent::Malformed
        }
    } else if op.len() > 0 && op[0] == '-' {
        Intent::Remove(op.subrange(1, op.len() as int))
    } else {
        Intent::Unknown
    }
}

/// The reading of an operation on apps. The name ends at the first `=`, the
/// template path at the first `,` behind it; the target path is all that
/// follows.
pub open spec fn apps_intent(op: Seq<char>) -> Intent<(Seq<char>, Seq<char>)> {
    if op.len() > 0 && op[0] == '+' {
        let eq: int = 1 + span(op, 1, '=') as int;
        let comma: int = eq + 1 + span(op, eq + 1, ',') as int;
        if eq < op.len() && comma < op.len() {
            Intent::Put(
                op.subrange(1, eq),
                (op.subrange(eq + 1, comma), op.subrange(comma + 1, op.len() as int)),
            )
        } else {
            Intent::Malformed
        }
    } else if op.len() > 0 && op[0] == '-' {
        Intent::Remove(op.subrange(1, op.len() as int))
    } else {
        Intent::Unknown
    }
}

/// The entries after an operation, and what the operation reports: an add
/// sets its entry, a removal drops its entry or reports that there is none,
/// and every other operation leaves the entries alone.
pub open spec fn settles<T>(
    intent: Intent<T>,
    before: Map<Seq<char>, T>,
    after: Map<Seq<char>, T>,
    result: Result<Change, OpError>,
) -> bool {
    match intent {
        Intent::Put(n, v) => {
            &&& after == before.insert(n, v)
            &&& result matches Ok(Change::Put { name }) && name@ == n
        },
        Intent::Remove(n) => {
            &&& after == before.remove(n)
            &&& before.contains_key(n) ==> (result matches Ok(Change::Removed { name }) && name@
                == n)
            &&& !before.contains_key(n) ==> (result matches Err(OpError::NotFound { name })
                && name@ == n)
        },
        Intent::Malformed => after == before && result == Err::<Change, OpError>(OpError::Usage),
        Intent::Unknown => after == before && result == Err::<Change, OpError>(
            OpError::UnknownOperation,
        ),
    }
}

/// The order of the names after an operation: a new name goes to the end, a
/// removed one leaves its place, and nothing else moves.
pub open spec fn listing_after<T>(intent: Intent<T>, before: Seq<Seq<char>>) -> Seq<Seq<char>> {
    match intent {
        Intent::Put(n, _) => if before.contains(n) {
            before
        } else {
            before.push(n)
        },
        Intent::Remove(n) => if before.contains(n) {
            before.remove(before.index_of(n))
        } else {
            before
        },
        _ => before,
    }
}

/// An add for an app that names no target, for want of a `,` behind the
/// first `=`, is malformed.
pub proof fn lemma_add_without_target(op: Seq<char>)
    requires
        op.len() > 0,
        op[0] == '+',
        forall|i: int| 1 + span(op, 1, '=') < i < op.len() ==> op[i] != ',',
    ensures
        apps_intent(op) == Intent::<(Seq<char>, Seq<char>)>::Malformed,
{
    let eq: int = 1 + span(op, 1, '=') as int;
    lemma_span(op, 1, '=');
    if eq < op.len() {
        lemma_span(op, eq + 1, ',');
    }
}

/// An add for a variable whose name would be empty is malformed: no variable
/// is ever kept under the empty name by an operation.
pub proof fn lemma_add_without_name(op: Seq<char>)
    requires
        op.len() > 1,
        op[0] == '+',
        op[1] == '=',
    ensures
        vars_intent(op) == Intent::<Seq<char>>::Malformed,
{
}

/// Carries out one operation on the variables. A variable's name is never
/// empty: an add without a name is a usage error.
pub fn vars_ctl(op: &str, vars: &mut Vars) -> (result: Result<Change, OpError>)
    requires
        old(vars).wf(),
    ensures
        final(vars).wf(),
        settles(vars_intent(op@), old(vars)@, final(vars)@, result),
        final(vars).names() == listing_after(vars_intent(op@), old(vars).names()),
        result is Err ==> *final(vars) == *old(vars),
{
    let t = chars_of(op);
    let n = t.len();
    if n > 0 && t[0] == '+' {
        let eq = find_from(&t, 1, '=');
        if eq > 1 && eq < n {
            let name = string_of(&t, 1, eq);
            let value = string_of(&t, eq + 1, n);
            let shown = name.clone();
            vars.set(name, value);
            Ok(Change::Put { name: shown })
        } else {
            Err(OpError::Usage)
        }
    } else if n > 0 && t[0] == '-' {
        let name = string_of(&t, 1, n);
        match vars.remove(name.as_str()) {
            Some(_) => Ok(Change::Removed { name }),
            None => Err(OpError::NotFound { name }),
        }
    } else {
        Err(OpError::UnknownOperation)
    }
}

/// Carries out one operation on the apps. An add that does not give both a
/// template and a target creates and overwrites nothing.
pub fn apps_ctl(op: &str, apps: &mut Apps) -> (result: Result<Change, OpError>)
    requires
        old(apps).wf(),
    ensures
        final(apps).wf(),
        settles(apps_intent(op@), old(apps)@, final(apps)@, result),
        final(apps).names() == listing_after(apps_intent(op@), old(apps).names()),
        result is Err ==> *final(apps) == *old(apps),
{
    let t = chars_of(op);
    let n = t.len();
    if n > 0 && t[0] == '+' {
        let eq = find_from(&t, 1, '=');
        if eq < n {
            let comma = find_from(&t, eq + 1, ',');
            if comma < n {
                let name = string_of(&t, 1, eq);
                let template = string_of(&t, eq + 1, comma);
                let target = string_of(&t, comma + 1, n);
                let shown = name.clone();
                apps.set(name, AppEntry { template, target });
                Ok(Change::Put { name: shown })
            } else {
                Err(OpError::Usage)
            }
        } else {
            Err(OpError::Usage)
        }
    } else if n > 0 && t[0] == '-' {
        let name = string_of(&t, 1, n);
        match apps.remove(name.as_str()) {
            Some(_) => Ok(Change::Removed { name }),
            None => Err(OpError::NotFound { name }),
        }
    } else {
        Err(OpError::UnknownOperation)
    }
}

/// What a selector run over a list of names has picked: its output without
/// the surrounding white space where it ended well, nothing where it failed.
pub fn selection(success: bool, output: &str) -> (picked: Option<String>)
    ensures
        success ==> (picked matches Some(name) && name@ == trimmed(output@)),
        !success ==> picked is None,
{
    if success {
        Some(trim(output))
    } else {
        None
    }
}

} // verus!
