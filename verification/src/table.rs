use vstd::prelude::*;
use crate::depkey::{DepKey, full_postfix};
use crate::text::{
    all_ascii, ascii_lower, ascii_upper, ends_with, is_suffix, strictly_sorted,
    to_ascii_lowercase, to_uppercase, unicode_upper,
};

verus! {

#[verifier::external_type_specification]
#[verifier::external_body]
#[verifier::reject_recursive_types(K)]
#[verifier::reject_recursive_types(V)]
pub struct ExTomlMap<K, V>(toml::map::Map<K, V>);

#[verifier::external_type_specification]
#[verifier::external_body]
pub struct ExTomlValue(toml::Value);

/// What a TOML table holds at its top level: each key, mapped to what its
/// value holds as `toml_text` reads it.
pub uninterp spec fn table_entries(t: toml::map::Map<String, toml::Value>) -> Map<
    Seq<char>,
    Option<Seq<char>>,
>;

/// What `toml::from_str::<toml::Table>` makes of a text: the table's entries
/// in the terms of `table_entries`, or the text of the error it returns (its
/// `Display`).
pub uninterp spec fn toml_parse(text: Seq<char>) -> Result<
    Map<Seq<char>, Option<Seq<char>>>,
    Seq<char>,
>;

pub open spec fn parsed_table_view(r: Result<toml::Table, String>) -> Result<
    Map<Seq<char>, Option<Seq<char>>>,
    Seq<char>,
> {
    match r {
        Ok(t) => Ok(table_entries(t)),
        Err(m) => Err(m@),
    }
}

/// `toml::from_str::<toml::Table>`, named `toml_parse`: the table, or the
/// text of the error.
#[verifier::external_body]
pub(crate) fn parse_toml_table(text: &str) -> (r: Result<toml::Table, String>)
    ensures
        parsed_table_view(r) == toml_parse(text@),
{
    match toml::from_str::<toml::Table>(text) {
        Ok(t) => Ok(t),
        Err(e) => Err(e.to_string()),
    }
}

/// What a TOML value holds, as far as this library reads it: its text where
/// it is a string, `None` for any other TOML value.
pub uninterp spec fn toml_text(v: toml::Value) -> Option<Seq<char>>;

pub open spec fn opt_value_text(o: Option<&toml::Value>) -> Option<Option<Seq<char>>> {
    match o {
        Some(v) => Some(toml_text(*v)),
        None => None,
    }
}

pub open spec fn entry_of(entries: Map<Seq<char>, Option<Seq<char>>>, key: Seq<char>) -> Option<
    Option<Seq<char>>,
> {
    if entries.contains_key(key) {
        Some(entries[key])
    } else {
        None
    }
}

/// `toml::Table::get`: the value under the key, where there is one; it holds
/// what the table's entries say.
#[verifier::external_body]
fn table_get<'a>(t: &'a toml::Table, key: &str) -> (r: Option<&'a toml::Value>)
    ensures
        opt_value_text(r) == entry_of(table_entries(*t), key@),
{
    t.get(key)
}

pub open spec fn opt_str_view(o: Option<&str>) -> Option<Seq<char>> {
    match o {
        Some(s) => Some(s@),
        None => None,
    }
}

/// `toml::Value::as_str`: the text where the value is a string.
#[verifier::external_body]
fn toml_value_as_str(v: &toml::Value) -> (r: Option<&str>)
    ensures
        opt_str_view(r) == toml_text(*v),
{
    v.as_str()
}

/// The text value of a key of a table, where the key is present and its
/// value is a string.
fn table_get_str(t: &toml::Table, key: &str) -> (r: Option<String>)
    ensures
        option_view(r) == text_value(table_entries(*t), key@),
{
    match table_get(t, key) {
        Some(v) => match toml_value_as_str(v) {
            Some(s) => Some(String::from_str(s)),
            None => None,
        },
        None => None,
    }
}

pub open spec fn option_view(o: Option<String>) -> Option<Seq<char>> {
    match o {
        Some(s) => Some(s@),
        None => None,
    }
}

pub open spec fn key_views(keys: Seq<String>) -> Seq<Seq<char>> {
    keys.map_values(|k: String| k@)
}

/// `toml::Table::keys`, collected: the table's keys, each once, in the
/// lexicographic order in which the table (a `BTreeMap` without the
/// `preserve_order` feature) stores them.
#[verifier::external_body]
fn table_keys(t: &toml::Table) -> (r: Vec<String>)
    ensures
        key_views(r@).to_set() == table_entries(*t).dom(),
        key_views(r@).no_duplicates(),
        strictly_sorted(key_views(r@)),
{
    t.keys().cloned().collect()
}

// ---------------------------------------------------------------------------
// Dependencies in a table

/// The configuration key of an entry of a dependency: the dependency's name
/// upper-cased, `_`, and the postfix of the entry's kind.
pub open spec fn ghdep_key(dep: Seq<char>, key: DepKey) -> Seq<char> {
    unicode_upper(dep) + seq!['_'] + full_postfix(key)
}

/// The text value of a key in a table's entries, if it has one.
pub open spec fn text_value(entries: Map<Seq<char>, Option<Seq<char>>>, key: Seq<char>) -> Option<
    Seq<char>,
> {
    if entries.contains_key(key) {
        entries[key]
    } else {
        None
    }
}

pub open spec fn project_postfix() -> Seq<char> {
    full_postfix(DepKey::Project)
}

/// A key that names a dependency's project: it ends in `GH_PROJECT`.
pub open spec fn is_project_key(k: Seq<char>) -> bool {
    is_suffix(project_postfix(), k)
}

/// A project key from which a dependency's name can be cut: an ASCII
/// character (in the configurations, `_`) stands before `GH_PROJECT`.
pub open spec fn well_formed_project_key(k: Seq<char>) -> bool {
    k.len() > project_postfix().len() && (k[k.len() - project_postfix().len() - 1] as u32) < 128
}

/// The name of the dependency whose project key is `k`: what stands before
/// `_GH_PROJECT`, lower-cased.
pub open spec fn dep_name_of_key(k: Seq<char>) -> Seq<char> {
    ascii_lower(k.take(k.len() - project_postfix().len() - 1))
}

/// Every project key in the entries is well formed.
pub open spec fn project_keys_well_formed(entries: Map<Seq<char>, Option<Seq<char>>>) -> bool {
    forall|k: Seq<char>|
        entries.contains_key(k) && #[trigger] is_project_key(k) ==> well_formed_project_key(k)
}

/// The names of the dependencies, from the keys in their order.
pub open spec fn dep_names(keys: Seq<Seq<char>>) -> Seq<Seq<char>>
    decreases keys.len(),
{
    if keys.len() == 0 {
        Seq::empty()
    } else {
        let rest = dep_names(keys.drop_last());
        if is_project_key(keys.last()) {
            rest.push(dep_name_of_key(keys.last()))
        } else {
            rest
        }
    }
}

/// The keys of a table, in the order in which it stores them: each once, in
/// lexicographic order.
pub open spec fn keys_in_order(keys: Seq<Seq<char>>, entries: Map<Seq<char>, Option<Seq<char>>>) -> bool {
    &&& keys.to_set() == entries.dom()
    &&& keys.no_duplicates()
    &&& strictly_sorted(keys)
}

/// Reads the dependencies of a configuration table.
pub trait GhDepContainer {
    /// Whether every key of the container that names a project has a
    /// dependency's name in front of `_GH_PROJECT`.
    spec fn project_keys_ok(&self) -> bool;

    /// The text value of the entry of kind `key` of dependency `dep`.
    fn get_ghdep_info(&self, dep: &str, key: DepKey) -> Option<String>;

    /// The names of all dependencies that have a project entry.
    fn get_all_deps(&self) -> Vec<String>
        requires
            self.project_keys_ok(),
    ;
}

impl GhDepContainer for toml::Table {
    open spec fn project_keys_ok(&self) -> bool {
        project_keys_well_formed(table_entries(*self))
    }

    fn get_ghdep_info(&self, dep: &str, key: DepKey) -> (r: Option<String>)
        ensures
            option_view(r) == text_value(table_entries(*self), ghdep_key(dep@, key)),
            all_ascii(dep@) ==> unicode_upper(dep@) == ascii_upper(dep@),
    {
        let mut k = to_uppercase(dep);
        k.append("_");
        k.append(key.as_full_postfix().as_str());
        proof {
            reveal_strlit("_");
            assert(k@ =~= ghdep_key(dep@, key));
        }
        table_get_str(self, k.as_str())
    }

    fn get_all_deps(&self) -> (r: Vec<String>)
        ensures
            exists|keys: Seq<Seq<char>>|
                keys_in_order(keys, table_entries(*self)) && #[trigger] dep_names(keys)
                    == key_views(r@),
    {
        let postfix = DepKey::Project.as_full_postfix();
        let keys = table_keys(self);
        let ghost kv = key_views(keys@);
        let mut r: Vec<String> = Vec::new();
        let n = keys.len();
        let mut i: usize = 0;
        while i < n
            invariant
                n == keys@.len(),
                kv == key_views(keys@),
                kv.to_set() == table_entries(*self).dom(),
                project_keys_well_formed(table_entries(*self)),
                postfix@ == project_postfix(),
                i <= n,
                key_views(r@) == dep_names(kv.take(i as int)),
            decreases n - i,
        {
            assert(kv.take(i + 1).drop_last() =~= kv.take(i as int));
            let k = &keys[i];
            assert(kv[i as int] == k@);
            if ends_with(k.as_str(), postfix.as_str()) {
                assert(kv.to_set().contains(k@));
                assert(table_entries(*self).contains_key(k@));
                assert(is_project_key(k@));
                let cut = k.unicode_len() - postfix.unicode_len() - 1;
                let name = to_ascii_lowercase(k.as_str().substring_char(0, cut));
                r.push(name);
                assert(key_views(r@) =~= dep_names(kv.take(i as int)).push(name@));
            }
            i = i + 1;
        }
        assert(kv.take(n as int) =~= kv);
        r
    }
}

/// The names of all dependencies in a table, where every project key has a
/// dependency's name in front of `_GH_PROJECT`; `None` where one has not (on
/// such a table `get_all_deps` would panic).
pub fn try_get_all_deps(table: &toml::Table) -> (r: Option<Vec<String>>)
    ensures
        r is Some <==> project_keys_well_formed(table_entries(*table)),
        r matches Some(v) ==> exists|keys: Seq<Seq<char>>|
            keys_in_order(keys, table_entries(*table)) && #[trigger] dep_names(keys) == key_views(
                v@,
            ),
{
    let postfix = DepKey::Project.as_full_postfix();
    let keys = table_keys(table);
    let ghost kv = key_views(keys@);
    let n = keys.len();
    let m = postfix.unicode_len();
    let mut i: usize = 0;
    while i < n
        invariant
            n == keys@.len(),
            kv == key_views(keys@),
            kv.to_set() == table_entries(*table).dom(),
            postfix@ == project_postfix(),
            m == postfix@.len(),
            i <= n,
            forall|j: int| 0 <= j < i && is_project_key(kv[j]) ==> well_formed_project_key(#[trigger] kv[j]),
        decreases n - i,
    {
        let k = keys[i].as_str();
        assert(kv[i as int] == k@);
        if ends_with(k, postfix.as_str()) {
            let len = k.unicode_len();
            if len <= m {
                assert(!well_formed_project_key(kv[i as int]));
                assert(kv.to_set().contains(kv[i as int]));
                assert(table_entries(*table).contains_key(k@));
                assert(is_project_key(k@));
                assert(!project_keys_well_formed(table_entries(*table)));
                return None;
            }
            let c = k.get_char(len - m - 1);
            if c as u32 >= 128 {
                assert(!well_formed_project_key(kv[i as int]));
                assert(kv.to_set().contains(kv[i as int]));
                assert(table_entries(*table).contains_key(k@));
                assert(is_project_key(k@));
                assert(!project_keys_well_formed(table_entries(*table)));
                return None;
            }
        }
        i = i + 1;
    }
    assert forall|k: Seq<char>|
        table_entries(*table).contains_key(k) && #[trigger] is_project_key(k) implies well_formed_project_key(k) by {
        assert(kv.to_set().contains(k));
        let j = choose|j: int| 0 <= j < kv.len() && kv[j] == k;
        assert(is_project_key(kv[j]));
    }
    Some(table.get_all_deps())
}

} // verus!
