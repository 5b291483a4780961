//! The two registries, path expansion, and the rendering of every app.

use vstd::prelude::*;
use vstd::string::*;
use crate::registry::Registry;
use crate::render::{render, Rendered};
use crate::text::text_view;

verus! {

/// An app: the path of its template and the path of the file rendered from
/// it. Both are kept as written, a leading `~` included.
#[derive(Debug, Clone)]
pub struct AppEntry {
    pub template: String,
    pub target: String,
}

impl View for AppEntry {
    type V = (Seq<char>, Seq<char>);

    /// The template path, then the target path.
    open spec fn view(&self) -> (Seq<char>, Seq<char>) {
        (self.template@, self.target@)
    }
}

/// The variables: each name with its value.
pub type Vars = Registry<String>;

/// The apps: each name with its entry.
pub type Apps = Registry<AppEntry>;

/// `p` starts with a `~` that stands alone or before a `/`.
pub open spec fn tilde_led(p: Seq<char>) -> bool {
    &&& p.len() > 0
    &&& p[0] == '~'
    &&& (p.len() == 1 || p[1] == '/')
}

/// The path `p` with a leading tilde replaced by the home directory, where
/// one is known; any other path as it is.
pub open spec fn expansion(p: Seq<char>, home: Option<Seq<char>>) -> Seq<char> {
    if tilde_led(p) && home is Some {
        home->0 + p.skip(1)
    } else {
        p
    }
}

/// `r` is what `p` expands to with the home directory `home`. A path that
/// starts with `~\` is a tilde path on some systems and an ordinary one on
/// the others: for it both readings are admitted.
pub open spec fn expands_to(p: Seq<char>, home: Option<Seq<char>>, r: Seq<char>) -> bool {
    if p.len() > 1 && p[0] == '~' && p[1] == '\\' {
        r == p || (home is Some && r == home->0 + p.skip(1))
    } else {
        r == expansion(p, home)
    }
}

/// Expands a leading `~` to the home directory `home`.
///
/// This calls `shellexpand::tilde_with_context`, with `home` as what the
/// context gives, and its contract is taken on trust from that function: a
/// path that is `~` alone or starts with `~/` comes back with the tilde
/// replaced by `home`, or unchanged where `home` is `None`; a path that
/// starts with `~\` is treated the same way on Windows and comes back
/// unchanged elsewhere; every other path comes back unchanged.
#[verifier::external_body]
pub fn expand(p: &str, home: Option<&str>) -> (r: String)
    ensures
        expands_to(p@, text_view(home), r@),
{
    shellexpand::tilde_with_context(p, || home).to_string()
}

/// What became of one app in a run over all of them.
#[derive(Debug, Clone)]
pub enum Outcome {
    /// There was no template text: nothing is to be written.
    TemplateUnreadable { app: String, template: String },
    /// The template was rendered: `rendered.text` is to replace the content
    /// of the file at `target`, the expanded target path.
    Write { app: String, target: String, rendered: Rendered },
}

impl Outcome {
    /// This is the outcome for the app `app` with entry `entry`, the home
    /// directory `home` and the template text `template`, if any.
    pub open spec fn describes(
        &self,
        vars: Map<Seq<char>, Seq<char>>,
        app: Seq<char>,
        entry: (Seq<char>, Seq<char>),
        home: Option<Seq<char>>,
        template: Option<Seq<char>>,
    ) -> bool {
        match *self {
            Outcome::TemplateUnreadable { app: a, template: p } => {
                &&& template is None
                &&& a@ == app
                &&& p@ == entry.0
            },
            Outcome::Write { app: a, target: g, rendered } => {
                &&& template is Some
                &&& a@ == app
                &&& expands_to(entry.1, home, g@)
                &&& rendered.is_render_of(template->0, vars)
            },
        }
    }
}

/// The text handed in for the `i`-th app; none where the list is too short.
pub open spec fn template_for(templates: Seq<Option<String>>, i: int) -> Option<Seq<char>> {
    if 0 <= i < templates.len() {
        match templates[i] {
            Some(s) => Some(s@),
            None => None,
        }
    } else {
        None
    }
}

/// Renders one app: its target path is expanded with `home`, and its template
/// text is rendered with `vars`. Without a template text the app fails and
/// no text is produced for its target.
pub fn render_app(
    vars: &Vars,
    app: &str,
    entry: &AppEntry,
    home: Option<&str>,
    template: Option<&str>,
) -> (out: Outcome)
    requires
        vars.wf(),
    ensures
        out.describes(vars@, app@, entry@, text_view(home), text_view(template)),
{
    match template {
        None => Outcome::TemplateUnreadable {
            app: app.to_owned(),
            template: entry.template.clone(),
        },
        Some(t) => Outcome::Write {
            app: app.to_owned(),
            target: expand(entry.target.as_str(), home),
            rendered: render(t, vars),
        },
    }
}

/// The expanded template path of every app, in the order of the listing:
/// where each template is to be read from.
pub fn template_paths(apps: &Apps, home: Option<&str>) -> (paths: Vec<String>)
    requires
        apps.wf(),
    ensures
        paths.len() == apps.names().len(),
        forall|i: int|
            0 <= i < paths.len() ==> expands_to(
                apps.values()[i].0,
                text_view(home),
                (#[trigger] paths[i])@,
            ),
{
    let mut paths: Vec<String> = Vec::new();
    let mut i: usize = 0;
    while i < apps.len()
        invariant
            apps.wf(),
            i <= apps.names().len(),
            paths.len() == i,
            forall|k: int|
                0 <= k < i ==> expands_to(
                    apps.values()[k].0,
                    text_view(home),
                    (#[trigger] paths[k])@,
                ),
        decreases apps.names().len() - i,
    {
        paths.push(expand(apps.value_at(i).template.as_str(), home));
        i += 1;
    }
    paths
}

/// Renders every app, in the order of the listing. `templates[i]` is the text
/// of the `i`-th app's template, or `None` where it could not be read; an app
/// for which the list has no entry counts as unreadable, and entries beyond
/// the last app are not looked at. Each app's outcome depends on the
/// variables, the home directory, its own entry and its own template alone:
/// one that fails leaves the others as they would be without it.
pub fn apply(
    vars: &Vars,
    apps: &Apps,
    home: Option<&str>,
    templates: &Vec<Option<String>>,
) -> (outcomes: Vec<Outcome>)
    requires
        vars.wf(),
        apps.wf(),
    ensures
        outcomes.len() == apps.names().len(),
        forall|i: int|
            0 <= i < outcomes.len() ==> (#[trigger] outcomes[i]).describes(
                vars@,
                apps.names()[i],
                apps.values()[i],
                text_view(home),
                template_for(templates@, i),
            ),
{
    let mut outcomes: Vec<Outcome> = Vec::new();
    let mut i: usize = 0;
    while i < apps.len()
        invariant
            vars.wf(),
            apps.wf(),
            i <= apps.names().len(),
            outcomes.len() == i,
            forall|k: int|
                0 <= k < i ==> (#[trigger] outcomes[k]).describes(
                    vars@,
                    apps.names()[k],
                    apps.values()[k],
                    text_view(home),
                    template_for(templates@, k),
                ),
        decreases apps.names().len() - i,
    {
        let text: Option<&str> = if i < templates.len() {
            match &templates[i] {
                Some(s) => Some(s.as_str()),
                None => None,
            }
        } else {
            None
        };
        let outcome = render_app(vars, apps.name_at(i).as_str(), apps.value_at(i), home, text);
        outcomes.push(outcome);
        i += 1;
    }
    outcomes
}

/// One line of what a run has to tell about an app.
#[derive(Debug, Clone)]
pub enum Report {
    /// The variable `var` was found for a placeholder of `app`.
    Found { var: String, app: String },
    /// The template of `app` could not be read.
    TemplateRead { app: String, template: String },
    /// A placeholder of `app` names `var`, which is not defined.
    UnknownPlaceholder { var: String, app: String },
    /// The file at `target` could not be written, for `cause`.
    TargetWrite { target: String, cause: String },
}

impl Report {
    /// Whether this line tells of a failure.
    pub fn is_error(&self) -> (b: bool)
        ensures
            b == !(self is Found),
    {
        match self {
            Report::Found { .. } => false,
            _ => true,
        }
    }
}

/// The view of an optional string.
pub open spec fn optional_view(s: Option<String>) -> Option<Seq<char>> {
    match s {
        Some(s) => Some(s@),
        None => None,
    }
}

/// `reports` is what is to be told of `outcome`, where `failure` is the cause
/// for which its text could not be written, if there was one: first each
/// variable found, then each unknown name, each per occurrence, then the
/// failed write. An unreadable template is the only thing told of its app.
pub open spec fn tells(
    reports: Seq<Report>,
    outcome: Outcome,
    failure: Option<Seq<char>>,
) -> bool {
    match outcome {
        Outcome::TemplateUnreadable { app, template } => {
            &&& reports.len() == 1
            &&& reports[0] matches Report::TemplateRead { app: a, template: t }
            &&& a@ == app@
            &&& t@ == template@
        },
        Outcome::Write { app, target, rendered } => {
            let found = rendered.resolved@.len() as int;
            let unknown = rendered.unknown@.len() as int;
            &&& reports.len() == found + unknown + if failure is Some {
                1int
            } else {
                0int
            }
            &&& forall|i: int|
                0 <= i < found ==> (#[trigger] reports[i] matches Report::Found { var, app: a }
                    && var@ == rendered.resolved@[i]@ && a@ == app@)
            &&& forall|i: int|
                0 <= i < unknown ==> (#[trigger] reports[found + i]
                    matches Report::UnknownPlaceholder { var, app: a } && var@
                    == rendered.unknown@[i]@ && a@ == app@)
            &&& failure is Some ==> (reports[found + unknown] matches Report::TargetWrite {
                target: t,
                cause,
            } && t@ == target@ && cause@ == failure->0)
        },
    }
}

/// What is to be told of `outcome`; `failure` is the cause for which the
/// text could not be written to its target, if it could not.
pub fn reports_of(outcome: &Outcome, failure: Option<String>) -> (reports: Vec<Report>)
    ensures
        tells(reports@, *outcome, optional_view(failure)),
{
    let mut reports: Vec<Report> = Vec::new();
    match outcome {
        Outcome::TemplateUnreadable { app, template } => {
            reports.push(Report::TemplateRead { app: app.clone(), template: template.clone() });
        },
        Outcome::Write { app, target, rendered } => {
            let found = rendered.resolved.len();
            let unknown = rendered.unknown.len();
            let mut i: usize = 0;
            while i < found
                invariant
                    i <= found,
                    found == rendered.resolved@.len(),
                    reports.len() == i,
                    forall|k: int|
                        0 <= k < i ==> (#[trigger] reports[k] matches Report::Found { var, app: a }
                            && var@ == rendered.resolved@[k]@ && a@ == app@),
                decreases found - i,
            {
                reports.push(Report::Found { var: rendered.resolved[i].clone(), app: app.clone() });
                i += 1;
            }
            let mut j: usize = 0;
            while j < unknown
                invariant
                    j <= unknown,
                    found == rendered.resolved@.len(),
                    unknown == rendered.unknown@.len(),
                    reports.len() == found + j,
                    forall|k: int|
                        0 <= k < found ==> (#[trigger] reports[k] matches Report::Found {
                            var,
                            app: a,
                        } && var@ == rendered.resolved@[k]@ && a@ == app@),
                    forall|k: int|
                        0 <= k < j ==> (#[trigger] reports[found + k]
                            matches Report::UnknownPlaceholder { var, app: a } && var@
                            == rendered.unknown@[k]@ && a@ == app@),
                decreases unknown - j,
            {
                reports.push(
                    Report::UnknownPlaceholder {
                        var: rendered.unknown[j].clone(),
                        app: app.clone(),
                    },
                );
                j += 1;
            }
            match failure {
                Some(cause) => {
                    reports.push(Report::TargetWrite { target: target.clone(), cause });
                },
                None => {},
            }
        },
    }
    reports
}

} // verus!
