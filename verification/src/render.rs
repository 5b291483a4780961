//! The renderer: a single pass over a template that replaces each placeholder
//! `$[name]` by the value of the variable `name`.

use vstd::prelude::*;
use vstd::string::*;
use crate::registry::Registry;
use crate::text::{chars_of, find_from, lemma_span, lemma_span_is, span, string_of, views};

verus! {

/// How many characters from `from` on stand before the next `]`, or before
/// the end of `t` where no `]` follows.
pub open spec fn name_len(t: Seq<char>, from: int) -> nat {
    span(t, from, ']')
}

/// A placeholder starts at `i`: `$[`, then one or more characters other than
/// `]`, then `]`.
pub open spec fn placeholder_at(t: Seq<char>, i: int) -> bool {
    &&& 0 <= i
    &&& i + 1 < t.len()
    &&& t[i] == '$'
    &&& t[i + 1] == '['
    &&& name_len(t, i + 2) > 0
    &&& i + 2 + name_len(t, i + 2) < t.len()
}

/// The name inside the placeholder that starts at `i`.
pub open spec fn name_at(t: Seq<char>, i: int) -> Seq<char> {
    t.subrange(i + 2, i + 2 + name_len(t, i + 2))
}

/// The index just behind the placeholder that starts at `i`.
pub open spec fn end_of(t: Seq<char>, i: int) -> int {
    i + 2 + name_len(t, i + 2) + 1
}

/// What stands in place of a placeholder named `name`: the variable's value,
/// or nothing where no such variable is defined.
pub open spec fn value_of(vars: Map<Seq<char>, Seq<char>>, name: Seq<char>) -> Seq<char> {
    if vars.contains_key(name) {
        vars[name]
    } else {
        Seq::empty()
    }
}

/// The rendering of `t` from index `i` on. Placeholders are taken from left to
/// right; a value that was put in is not scanned again.
pub open spec fn rendered_from(t: Seq<char>, vars: Map<Seq<char>, Seq<char>>, i: int) -> Seq<char>
    decreases t.len() - i,
{
    if i < 0 || i >= t.len() {
        Seq::empty()
    } else if placeholder_at(t, i) {
        value_of(vars, name_at(t, i)) + rendered_from(t, vars, end_of(t, i))
    } else {
        seq![t[i]] + rendered_from(t, vars, i + 1)
    }
}

/// The rendering of the whole template.
pub open spec fn rendered(t: Seq<char>, vars: Map<Seq<char>, Seq<char>>) -> Seq<char> {
    rendered_from(t, vars, 0)
}

/// The names of the placeholders from index `i` on, one for each occurrence
/// and in the order of the template: those of defined variables where `known`
/// holds, else those of undefined ones.
pub open spec fn reported_from(
    t: Seq<char>,
    vars: Map<Seq<char>, Seq<char>>,
    known: bool,
    i: int,
) -> Seq<Seq<char>>
    decreases t.len() - i,
{
    if i < 0 || i >= t.len() {
        Seq::empty()
    } else if placeholder_at(t, i) {
        let rest = reported_from(t, vars, known, end_of(t, i));
        if vars.contains_key(name_at(t, i)) == known {
            seq![name_at(t, i)] + rest
        } else {
            rest
        }
    } else {
        reported_from(t, vars, known, i + 1)
    }
}

/// The names a rendering of the whole template reports.
pub open spec fn reported(t: Seq<char>, vars: Map<Seq<char>, Seq<char>>, known: bool) -> Seq<
    Seq<char>,
> {
    reported_from(t, vars, known, 0)
}

/// A rendered template, with the names that were met on the way.
#[derive(Debug, Clone)]
pub struct Rendered {
    /// The template with every placeholder replaced.
    pub text: String,
    /// The name of each placeholder whose variable was found, per occurrence.
    pub resolved: Vec<String>,
    /// The name of each placeholder without a variable, per occurrence.
    pub unknown: Vec<String>,
}

impl Rendered {
    /// This is what rendering `t` with `vars` gives.
    pub open spec fn is_render_of(&self, t: Seq<char>, vars: Map<Seq<char>, Seq<char>>) -> bool {
        &&& self.text@ == rendered(t, vars)
        &&& views(self.resolved@) == reported(t, vars, true)
        &&& views(self.unknown@) == reported(t, vars, false)
    }
}

/// Renders `template` with `vars`.
pub fn render(template: &str, vars: &Registry<String>) -> (out: Rendered)
    requires
        vars.wf(),
    ensures
        out.is_render_of(template@, vars@),
{
    let t = chars_of(template);
    let n = t.len();
    let mut text = String::new();
    let mut resolved: Vec<String> = Vec::new();
    let mut unknown: Vec<String> = Vec::new();
    let mut i: usize = 0;
    proof {
        assert(views(resolved@) =~= Seq::empty());
        assert(views(unknown@) =~= Seq::empty());
    }
    while i < n
        invariant
            vars.wf(),
            t@ == template@,
            n == t.len(),
            i <= n,
            text@ + rendered_from(t@, vars@, i as int) == rendered(t@, vars@),
            views(resolved@) + reported_from(t@, vars@, true, i as int) == reported(
                t@,
                vars@,
                true,
            ),
            views(unknown@) + reported_from(t@, vars@, false, i as int) == reported(
                t@,
                vars@,
                false,
            ),
        decreases n - i,
    {
        let mut close: usize = n;
        if t[i] == '$' && n - i > 1 && t[i + 1] == '[' {
            close = find_from(&t, i + 2, ']');
        }
        if close < n && close > i + 2 {
            assert(placeholder_at(t@, i as int));
            let name = string_of(&t, i + 2, close);
            assert(name@ == name_at(t@, i as int));
            let ghost text0 = text@;
            let ghost resolved0 = views(resolved@);
            let ghost unknown0 = views(unknown@);
            let ghost rest = rendered_from(t@, vars@, close + 1);
            match vars.get(name.as_str()) {
                Some(value) => {
                    text.append(value.as_str());
                    resolved.push(name);
                    proof {
                        assert(views(resolved@) =~= resolved0.push(name@));
                        assert(text@ + rest =~= text0 + (value@ + rest));
                        assert(views(resolved@) + reported_from(t@, vars@, true, close + 1)
                            =~= resolved0 + (seq![name@] + reported_from(
                            t@,
                            vars@,
                            true,
                            close + 1,
                        )));
                    }
                },
                None => {
                    unknown.push(name);
                    proof {
                        assert(views(unknown@) =~= unknown0.push(name@));
                        assert(text@ + rest =~= text0 + (Seq::<char>::empty() + rest));
                        assert(views(unknown@) + reported_from(t@, vars@, false, close + 1)
                            =~= unknown0 + (seq![name@] + reported_from(
                            t@,
                            vars@,
                            false,
                            close + 1,
                        )));
                    }
                },
            }
            i = close + 1;
        } else {
            assert(!placeholder_at(t@, i as int));
            let ghost text0 = text@;
            text.push(t[i]);
            proof {
                assert(text@ + rendered_from(t@, vars@, i + 1) =~= text0 + (seq![t@[i as int]]
                    + rendered_from(t@, vars@, i + 1)));
            }
            i += 1;
        }
    }
    proof {
        assert(text@ + Seq::<char>::empty() =~= text@);
        assert(views(resolved@) + Seq::<Seq<char>>::empty() =~= views(resolved@));
        assert(views(unknown@) + Seq::<Seq<char>>::empty() =~= views(unknown@));
    }
    Rendered { text, resolved, unknown }
}

/// A template without any placeholder renders to itself, and reports no
/// name.
pub proof fn lemma_plain_text_unchanged(t: Seq<char>, vars: Map<Seq<char>, Seq<char>>)
    requires
        forall|i: int| !placeholder_at(t, i),
    ensures
        rendered(t, vars) == t,
        reported(t, vars, true) == Seq::<Seq<char>>::empty(),
        reported(t, vars, false) == Seq::<Seq<char>>::empty(),
{
    lemma_plain_tail(t, vars, 0);
}

proof fn lemma_plain_tail(t: Seq<char>, vars: Map<Seq<char>, Seq<char>>, i: int)
    requires
        forall|k: int| !placeholder_at(t, k),
        0 <= i <= t.len(),
    ensures
        rendered_from(t, vars, i) == t.skip(i),
        reported_from(t, vars, true, i) == Seq::<Seq<char>>::empty(),
        reported_from(t, vars, false, i) == Seq::<Seq<char>>::empty(),
    decreases t.len() - i,
{
    if i < t.len() {
        lemma_plain_tail(t, vars, i + 1);
        assert(!placeholder_at(t, i));
        assert(seq![t[i]] + t.skip(i + 1) =~= t.skip(i));
    } else {
        assert(t.skip(i) =~= Seq::<char>::empty());
    }
}

/// A template that is one placeholder `$[x]` renders to the value of `x`
/// where `x` is defined, and to nothing where it is not; the name is reported
/// once, as found or as unknown.
pub proof fn lemma_single_placeholder(x: Seq<char>, vars: Map<Seq<char>, Seq<char>>)
    requires
        x.len() > 0,
        forall|k: int| 0 <= k < x.len() ==> x[k] != ']',
    ensures
        ({
            let t = seq!['$', '['] + x + seq![']'];
            &&& vars.contains_key(x) ==> rendered(t, vars) == vars[x] && reported(t, vars, true)
                == seq![x] && reported(t, vars, false) == Seq::<Seq<char>>::empty()
            &&& !vars.contains_key(x) ==> rendered(t, vars) == Seq::<char>::empty() && reported(
                t,
                vars,
                false,
            ) == seq![x] && reported(t, vars, true) == Seq::<Seq<char>>::empty()
        }),
{
    let t = seq!['$', '['] + x + seq![']'];
    assert(t.len() == x.len() + 3);
    assert forall|k: int| 2 <= k < 2 + x.len() implies t[k] != ']' by {
        assert(t[k] == x[k - 2]);
    }
    lemma_span_is(t, 2, ']', x.len());
    assert(placeholder_at(t, 0));
    assert(name_at(t, 0) =~= x);
    assert(end_of(t, 0) == t.len());
    assert(rendered_from(t, vars, t.len() as int) == Seq::<char>::empty());
    assert(value_of(vars, x) + Seq::<char>::empty() =~= value_of(vars, x));
    assert(seq![x] + Seq::<Seq<char>>::empty() =~= seq![x]);
    let end = t.len() as int;
    assert(reported_from(t, vars, true, end) == Seq::<Seq<char>>::empty());
    assert(reported_from(t, vars, false, end) == Seq::<Seq<char>>::empty());
    assert(rendered(t, vars) == value_of(vars, x) + rendered_from(t, vars, end));
    assert(reported(t, vars, true) == if vars.contains_key(x) {
        seq![x] + reported_from(t, vars, true, end)
    } else {
        reported_from(t, vars, true, end)
    });
    assert(reported(t, vars, false) == if !vars.contains_key(x) {
        seq![x] + reported_from(t, vars, false, end)
    } else {
        reported_from(t, vars, false, end)
    });
}

/// Rendering is a function of the template and the variables: two renderings
/// of the same template with the same variables agree in every character and
/// in every report.
pub proof fn lemma_render_repeatable(
    first: Rendered,
    second: Rendered,
    t: Seq<char>,
    vars: Map<Seq<char>, Seq<char>>,
)
    requires
        first.is_render_of(t, vars),
        second.is_render_of(t, vars),
    ensures
        first.text@ == second.text@,
        views(first.resolved@) == views(second.resolved@),
        views(first.unknown@) == views(second.unknown@),
{
}

/// A placeholder's name is never empty and holds no `]`, and the placeholder
/// ends with the first `]` behind its `$[`.
pub proof fn lemma_placeholder_shape(t: Seq<char>, i: int)
    requires
        placeholder_at(t, i),
    ensures
        name_at(t, i).len() > 0,
        forall|k: int| 0 <= k < name_at(t, i).len() ==> name_at(t, i)[k] != ']',
        i < end_of(t, i) <= t.len(),
        t[end_of(t, i) - 1] == ']',
{
    lemma_span(t, i + 2, ']');
}

} // verus!
