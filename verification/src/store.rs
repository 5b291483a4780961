//! The two registries as stored text: a JSON object of strings for the
//! variables, and a JSON object of objects of strings for the apps.

use vstd::prelude::*;
use vstd::string::*;
use crate::json::{
    json_string_map, message_of, pairs_view, parse_string_map, string_map_json,
    string_table_json, table_view, write_string_map, write_string_table, Pairs, Table,
};
use crate::registry::Registry;
use crate::text::{chars_of, is_space, text_view, white_space};
use crate::utility::{AppEntry, Apps, Vars};

verus! {

/// One of the two stored files.
#[derive(Clone, Copy, Debug, PartialEq, Eq, Structural)]
pub enum StateFile {
    Variables,
    Applications,
}

/// Why stored state could not be loaded.
#[derive(Debug, Clone)]
pub enum LoadError {
    /// The text of `file` is not blank and is not a JSON object of the
    /// expected shape; `detail` is the parser's message.
    Malformed { file: StateFile, detail: String },
}

/// Why a registry could not be written out as text.
#[derive(Debug, Clone)]
pub enum SaveError {
    /// The serializer failed; `detail` is its message.
    Serialize { detail: String },
}

/// Every character of `text` is white space.
pub open spec fn blank(text: Seq<char>) -> bool {
    forall|i: int| 0 <= i < text.len() ==> white_space(#[trigger] text[i])
}

/// The map that setting each pair in turn builds up: of two pairs with one
/// name the later one stays.
pub open spec fn map_of<T>(pairs: Seq<(Seq<char>, T)>) -> Map<Seq<char>, T>
    decreases pairs.len(),
{
    if pairs.len() == 0 {
        Map::empty()
    } else {
        map_of(pairs.drop_last()).insert(pairs.last().0, pairs.last().1)
    }
}

/// The names in the order in which setting each pair in turn lists them: a
/// name stands where it came first.
pub open spec fn order_of<T>(pairs: Seq<(Seq<char>, T)>) -> Seq<Seq<char>>
    decreases pairs.len(),
{
    if pairs.len() == 0 {
        Seq::empty()
    } else if order_of(pairs.drop_last()).contains(pairs.last().0) {
        order_of(pairs.drop_last())
    } else {
        order_of(pairs.drop_last()).push(pairs.last().0)
    }
}

/// What the variables file holds: nothing where it is missing or blank, else
/// what the parser makes of it (`None`: it is malformed).
pub open spec fn stored_vars(text: Option<Seq<char>>) -> Option<Pairs> {
    match text {
        None => Some(Seq::empty()),
        Some(t) => if blank(t) {
            Some(Seq::empty())
        } else {
            json_string_map(t)
        },
    }
}

/// Whether `text` holds nothing but white space.
pub fn is_blank(text: &str) -> (b: bool)
    ensures
        b == blank(text@),
{
    let t = chars_of(text);
    let mut i: usize = 0;
    while i < t.len()
        invariant
            i <= t.len(),
            t@ == text@,
            forall|k: int| 0 <= k < i ==> white_space(#[trigger] t@[k]),
        decreases t.len() - i,
    {
        if !is_space(t[i]) {
            return false;
        }
        i += 1;
    }
    true
}

/// The variables that parsed pairs give.
pub fn vars_from_pairs(pairs: Vec<(String, String)>) -> (vars: Vars)
    ensures
        vars.wf(),
        vars@ == map_of(pairs_view(pairs@)),
        vars.names() == order_of(pairs_view(pairs@)),
{
    let mut vars: Vars = Registry::new();
    let mut i: usize = 0;
    let ghost all = pairs_view(pairs@);
    proof {
        assert(vars.names() =~= Seq::empty());
    }
    while i < pairs.len()
        invariant
            i <= pairs.len(),
            all == pairs_view(pairs@),
            vars.wf(),
            vars@ == map_of(all.take(i as int)),
            vars.names() == order_of(all.take(i as int)),
        decreases pairs.len() - i,
    {
        let name = pairs[i].0.clone();
        let value = pairs[i].1.clone();
        vars.set(name, value);
        proof {
            assert(all.take(i + 1).drop_last() =~= all.take(i as int));
        }
        i += 1;
    }
    proof {
        assert(all.take(pairs.len() as int) =~= all);
    }
    vars
}

/// Loads the variables from the text of their file; `None` stands for a file
/// that is not there. A missing or blank file gives no variables.
pub fn load_vars(text: Option<&str>) -> (result: Result<Vars, LoadError>)
    ensures
        match result {
            Ok(vars) => vars.wf() && (stored_vars(text_view(text)) matches Some(p) && vars@
                == map_of(p) && vars.names() == order_of(p)),
            Err(LoadError::Malformed { file, .. }) => file == StateFile::Variables && stored_vars(
                text_view(text),
            ) is None,
        },
{
    match text {
        None => Ok(vars_from_pairs(Vec::new())),
        Some(t) => {
            if is_blank(t) {
                Ok(vars_from_pairs(Vec::new()))
            } else {
                match parse_string_map(t) {
                    Ok(pairs) => Ok(vars_from_pairs(pairs)),
                    Err(e) => Err(
                        LoadError::Malformed { file: StateFile::Variables, detail: message_of(&e) },
                    ),
                }
            }
        },
    }
}

/// Listed entries as character sequences: each name with its template path
/// and its target path.
pub open spec fn entries_view(v: Seq<(String, AppEntry)>) -> Seq<
    (Seq<char>, (Seq<char>, Seq<char>)),
> {
    Seq::new(v.len(), |i: int| (v[i].0@, v[i].1@))
}

/// The apps that listed entries give: of two entries with one name the later
/// one stays, at the place of the first.
pub fn apps_from_entries(entries: &Vec<(String, AppEntry)>) -> (apps: Apps)
    ensures
        apps.wf(),
        apps@ == map_of(entries_view(entries@)),
        apps.names() == order_of(entries_view(entries@)),
{
    let mut apps: Apps = Registry::new();
    let ghost all = entries_view(entries@);
    let mut i: usize = 0;
    proof {
        assert(apps.names() =~= Seq::empty());
    }
    while i < entries.len()
        invariant
            i <= entries.len(),
            all == entries_view(entries@),
            apps.wf(),
            apps@ == map_of(all.take(i as int)),
            apps.names() == order_of(all.take(i as int)),
        decreases entries.len() - i,
    {
        let name = entries[i].0.clone();
        let template = entries[i].1.template.clone();
        let target = entries[i].1.target.clone();
        apps.set(name, AppEntry { template, target });
        proof {
            assert(all.take(i + 1).drop_last() =~= all.take(i as int));
        }
        i += 1;
    }
    proof {
        assert(all.take(entries.len() as int) =~= all);
    }
    apps
}

/// What loading the apps must give, where `parsed` is what the parser made
/// of `text`: its entries, or its message where it failed. A missing or
/// blank file gives no apps, whatever the parser says of it; any other text
/// gives the parsed entries, or is malformed where the parser failed.
pub open spec fn apps_loaded(
    text: Option<Seq<char>>,
    parsed: Result<Vec<(String, AppEntry)>, String>,
    result: Result<Apps, LoadError>,
) -> bool {
    let entries = if text is None || blank(text->0) {
        Some(Seq::empty())
    } else {
        match parsed {
            Ok(v) => Some(entries_view(v@)),
            Err(_) => None,
        }
    };
    match result {
        Ok(apps) => apps.wf() && entries is Some && apps@ == map_of(entries->0) && apps.names()
            == order_of(entries->0),
        Err(LoadError::Malformed { file, detail }) => file == StateFile::Applications
            && entries is None && parsed is Err && detail@ == parsed->Err_0@,
    }
}

/// Loads the apps from the text of their file; `None` stands for a file that
/// is not there. `parsed` is what the parser made of that text: each app's
/// name with its entry, or the parser's message where the text is not a JSON
/// object of entries. It is looked at only where the text is there and not
/// blank.
pub fn load_apps(
    text: Option<&str>,
    parsed: Result<Vec<(String, AppEntry)>, String>,
) -> (result: Result<Apps, LoadError>)
    ensures
        apps_loaded(text_view(text), parsed, result),
{
    let there = match text {
        None => false,
        Some(t) => !is_blank(t),
    };
    if !there {
        Ok(apps_from_entries(&Vec::new()))
    } else {
        match parsed {
            Ok(entries) => Ok(apps_from_entries(&entries)),
            Err(detail) => Err(LoadError::Malformed { file: StateFile::Applications, detail }),
        }
    }
}

/// Loads both registries, the variables first: where their file is
/// malformed, that is the error, whatever the apps file holds.
pub fn load_state(
    vars_text: Option<&str>,
    apps_text: Option<&str>,
    apps_parsed: Result<Vec<(String, AppEntry)>, String>,
) -> (result: Result<(Vars, Apps), LoadError>)
    ensures
        match result {
            Ok((vars, apps)) => {
                &&& vars.wf()
                &&& stored_vars(text_view(vars_text)) matches Some(p) && vars@ == map_of(p)
                    && vars.names() == order_of(p)
                &&& apps_loaded(text_view(apps_text), apps_parsed, Ok(apps))
            },
            Err(LoadError::Malformed { file: StateFile::Variables, .. }) => stored_vars(
                text_view(vars_text),
            ) is None,
            Err(e) => stored_vars(text_view(vars_text)) is Some && apps_loaded(
                text_view(apps_text),
                apps_parsed,
                Err(e),
            ),
        },
{
    let vars = match load_vars(vars_text) {
        Ok(vars) => vars,
        Err(e) => {
            return Err(e);
        },
    };
    match load_apps(apps_text, apps_parsed) {
        Ok(apps) => Ok((vars, apps)),
        Err(e) => Err(e),
    }
}

/// The table that stands for listed apps: each entry as an object with its
/// template and its target.
pub open spec fn app_table(listing: Seq<(Seq<char>, (Seq<char>, Seq<char>))>) -> Table {
    Seq::new(
        listing.len(),
        |i: int| (listing[i].0, seq![("template"@, listing[i].1.0), ("target"@, listing[i].1.1)]),
    )
}

/// The text to store for the variables: the JSON object of their names and
/// values. The whole registry is written, never a part of it.
pub fn save_vars(vars: &Vars) -> (result: Result<String, SaveError>)
    requires
        vars.wf(),
    ensures
        match result {
            Ok(text) => string_map_json(vars.listing()) == Some(text@),
            Err(_) => string_map_json(vars.listing()) is None,
        },
{
    let mut pairs: Vec<(String, String)> = Vec::new();
    let mut i: usize = 0;
    while i < vars.len()
        invariant
            vars.wf(),
            i <= vars.names().len(),
            pairs.len() == i,
            forall|k: int|
                0 <= k < i ==> (#[trigger] pairs@[k]).0@ == vars.names()[k] && pairs@[k].1@
                    == vars.values()[k],
        decreases vars.names().len() - i,
    {
        pairs.push((vars.name_at(i).clone(), vars.value_at(i).clone()));
        i += 1;
    }
    proof {
        assert(pairs_view(pairs@) =~= vars.listing());
    }
    match write_string_map(&pairs) {
        Ok(text) => Ok(text),
        Err(e) => Err(SaveError::Serialize { detail: message_of(&e) }),
    }
}

/// The text to store for the apps: the JSON object of their names, each with
/// an object of its template and target. Paths are written as they are kept.
pub fn save_apps(apps: &Apps) -> (result: Result<String, SaveError>)
    requires
        apps.wf(),
    ensures
        match result {
            Ok(text) => string_table_json(app_table(apps.listing())) == Some(text@),
            Err(_) => string_table_json(app_table(apps.listing())) is None,
        },
{
    let mut table: Vec<(String, Vec<(String, String)>)> = Vec::new();
    let mut i: usize = 0;
    while i < apps.len()
        invariant
            apps.wf(),
            i <= apps.names().len(),
            table.len() == i,
            forall|k: int|
                0 <= k < i ==> (#[trigger] table@[k]).0@ == apps.names()[k] && pairs_view(
                    table@[k].1@,
                ) == seq![
                    ("template"@, apps.values()[k].0),
                    ("target"@, apps.values()[k].1),
                ],
        decreases apps.names().len() - i,
    {
        let entry = apps.value_at(i);
        let mut fields: Vec<(String, String)> = Vec::new();
        fields.push(("template".to_owned(), entry.template.clone()));
        fields.push(("target".to_owned(), entry.target.clone()));
        proof {
            assert(pairs_view(fields@) =~= seq![
                ("template"@, apps.values()[i as int].0),
                ("target"@, apps.values()[i as int].1),
            ]);
        }
        table.push((apps.name_at(i).clone(), fields));
        i += 1;
    }
    proof {
        assert(table_view(table@) =~= app_table(apps.listing()));
    }
    match write_string_table(&table) {
        Ok(text) => Ok(text),
        Err(e) => Err(SaveError::Serialize { detail: message_of(&e) }),
    }
}

/// Pairs whose names are all different give, set in turn, a map that holds
/// each of them, and list their names in their own order.
pub proof fn lemma_distinct_pairs<T>(pairs: Seq<(Seq<char>, T)>)
    requires
        forall|i: int, j: int|
            0 <= i < pairs.len() && 0 <= j < pairs.len() && i != j ==> pairs[i].0 != pairs[j].0,
    ensures
        order_of(pairs) == Seq::new(pairs.len(), |i: int| pairs[i].0),
        forall|k: Seq<char>|
            map_of(pairs).contains_key(k) <==> exists|i: int|
                0 <= i < pairs.len() && #[trigger] pairs[i].0 == k,
        forall|i: int|
            0 <= i < pairs.len() ==> map_of(pairs)[#[trigger] pairs[i].0] == pairs[i].1,
    decreases pairs.len(),
{
    let names = Seq::new(pairs.len(), |i: int| pairs[i].0);
    if pairs.len() == 0 {
        assert(order_of(pairs) =~= names);
    } else {
        let front = pairs.drop_last();
        let last = pairs.last();
        lemma_distinct_pairs(front);
        let front_names = Seq::new(front.len(), |i: int| front[i].0);
        assert(!front_names.contains(last.0)) by {
            if front_names.contains(last.0) {
                let i = front_names.index_of(last.0);
                assert(pairs[i].0 == pairs[pairs.len() - 1].0);
            }
        }
        assert(order_of(pairs) =~= names);
        assert forall|k: Seq<char>| map_of(pairs).contains_key(k) implies exists|i: int|
            0 <= i < pairs.len() && #[trigger] pairs[i].0 == k by {
            if k == last.0 {
                assert(pairs[pairs.len() - 1].0 == k);
            } else {
                let i = choose|i: int| 0 <= i < front.len() && #[trigger] front[i].0 == k;
                assert(pairs[i].0 == k);
            }
        }
        assert forall|k: Seq<char>|
            (exists|i: int|
                0 <= i < pairs.len() && #[trigger] pairs[i].0 == k) implies map_of(
            pairs,
        ).contains_key(k) by {
            let i = choose|i: int| 0 <= i < pairs.len() && #[trigger] pairs[i].0 == k;
            if i < front.len() {
                assert(front[i].0 == k);
            }
        }
        assert forall|i: int| 0 <= i < pairs.len() implies map_of(pairs)[#[trigger] pairs[i].0]
            == pairs[i].1 by {
            if i < front.len() {
                assert(front[i] == pairs[i]);
                assert(pairs[i].0 != pairs[pairs.len() - 1].0);
            }
        }
    }
}

/// Setting the listed entries of a registry in turn builds that registry
/// again, names in the same order.
pub proof fn lemma_listing_rebuilds<V: View>(r: &Registry<V>)
    requires
        r.wf(),
    ensures
        map_of(r.listing()) == r@,
        order_of(r.listing()) == r.names(),
{
    let pairs = r.listing();
    r.lemma_listing();
    lemma_distinct_pairs(pairs);
    assert(order_of(pairs) =~= r.names());
    assert forall|k: Seq<char>| map_of(pairs).contains_key(k) implies r@.contains_key(k)
        && r@[k] == map_of(pairs)[k] by {
        let i = choose|i: int| 0 <= i < pairs.len() && #[trigger] pairs[i].0 == k;
        assert(r.names()[i] == k);
    }
    assert forall|k: Seq<char>| r@.contains_key(k) implies map_of(pairs).contains_key(k) by {
        let i = r.names().index_of(k);
        assert(pairs[i].0 == k);
    }
    assert(map_of(pairs) =~= r@);
}

} // verus!
