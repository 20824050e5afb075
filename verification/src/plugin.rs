//! Plugins: what is known of each installed plugin, the plugins found by type and
//! name, the checks on a plugin file to install, and translation through a plugin's
//! script.

use vstd::prelude::*;
use crate::error::AppError;
use crate::json::{Json, JsonView, json_text, to_json_text};
use crate::services::{TranslateRequest, TranslateResult, ServiceError, TranslateResultView};
use crate::text::{views, str_eq, has_prefix, has_suffix, starts_with, ends_with};

verus! {

/// A plugin's description from its `info.json`.
pub struct PluginInfo {
    pub name: String,
    pub plugin_type: String,
    pub display: Vec<(String, String)>,
    pub language: Vec<(String, String)>,
}

/// An installed plugin: its description and its directory.
pub struct Plugin {
    pub info: PluginInfo,
    pub path: String,
}

/// `rel` under directory `base`, as `Path::join` puts a relative name under a
/// directory: with a `/` between them unless `base` is empty or already ends in one.
pub open spec fn joined_path(base: Seq<char>, rel: Seq<char>) -> Seq<char> {
    if base.len() == 0 || base.last() == '/' {
        base + rel
    } else {
        base + "/"@ + rel
    }
}

pub fn join_path(base: &str, rel: &str) -> (r: String)
    ensures
        r@ == joined_path(base@, rel@),
{
    let mut r = base.to_string();
    if base.unicode_len() > 0 && !ends_with(base, "/") {
        r.append("/");
    }
    r.append(rel);
    proof {
        reveal_strlit("/");
        if base@.len() > 0 {
            assert(base@.skip(base@.len() - 1)[0] == base@.last());
            if base@.last() == '/' {
                assert(base@.skip(base@.len() - 1) =~= "/"@);
            }
        }
    }
    r
}

fn copy_pairs(v: &Vec<(String, String)>) -> (r: Vec<(String, String)>)
    ensures
        pair_views(r@) == pair_views(v@),
{
    let mut out: Vec<(String, String)> = Vec::new();
    let mut i: usize = 0;
    while i < v.len()
        invariant
            i <= v@.len(),
            pair_views(out@) == pair_views(v@.take(i as int)),
        decreases v@.len() - i,
    {
        let ghost before = pair_views(out@);
        let x = (v[i].0.clone(), v[i].1.clone());
        out.push(x);
        assert(pair_views(out@) =~= before.push((v@[i as int].0@, v@[i as int].1@)));
        assert(pair_views(v@.take(i + 1)) =~= pair_views(v@.take(i as int)).push((v@[i as int].0@, v@[i as int].1@)));
        i = i + 1;
    }
    assert(v@.take(v@.len() as int) =~= v@);
    out
}

pub open spec fn pair_views(v: Seq<(String, String)>) -> Seq<(Seq<char>, Seq<char>)> {
    v.map_values(|p: (String, String)| (p.0@, p.1@))
}

/// The model of a plugin: name, type, display names, languages and directory.
pub open spec fn plugin_view(p: Plugin) -> (Seq<char>, Seq<char>, Seq<(Seq<char>, Seq<char>)>, Seq<(Seq<char>, Seq<char>)>, Seq<char>) {
    (p.info.name@, p.info.plugin_type@, pair_views(p.info.display@), pair_views(p.info.language@), p.path@)
}

impl Plugin {
    /// The path of the plugin's script.
    pub fn main_js_path(&self) -> (r: String)
        ensures
            r@ == joined_path(self.path@, "main.js"@),
    {
        join_path(self.path.as_str(), "main.js")
    }

    /// A copy of the plugin.
    pub fn copy(&self) -> (r: Plugin)
        ensures
            plugin_view(r) == plugin_view(*self),
    {
        let d = copy_pairs(&self.info.display);
        let l = copy_pairs(&self.info.language);
        let r = Plugin {
            info: PluginInfo {
                name: self.info.name.clone(),
                plugin_type: self.info.plugin_type.clone(),
                display: d,
                language: l,
            },
            path: self.path.clone(),
        };
        assert(pair_views(r.info.display@) =~= pair_views(self.info.display@));
        assert(pair_views(r.info.language@) =~= pair_views(self.info.language@));
        r
    }
}

/// The plugin types, each with a directory of its own.
pub open spec fn plugin_types() -> Seq<Seq<char>> {
    seq!["translate"@, "recognize"@, "tts"@, "collection"@]
}

/// A directory found where plugins of a type are kept: its type, its name, whether
/// it is a directory, its path, and its `info.json` when that exists and reads as a
/// plugin description.
pub struct PluginCandidate {
    pub plugin_type: String,
    pub name: String,
    pub is_dir: bool,
    pub path: String,
    pub info: Option<PluginInfo>,
}

/// Whether a candidate is taken as a plugin: a directory of a known type whose name
/// starts with `plugin` and that has a readable description.
pub open spec fn accepted(c: PluginCandidate) -> bool {
    &&& c.is_dir
    &&& plugin_types().contains(c.plugin_type@)
    &&& has_prefix(c.name@, "plugin"@)
    &&& c.info is Some
}

pub type PluginModel = (Seq<char>, Seq<char>, Seq<(Seq<char>, Seq<char>)>, Seq<(Seq<char>, Seq<char>)>, Seq<char>);

/// The plugin a candidate describes.
pub open spec fn candidate_plugin(c: PluginCandidate) -> PluginModel {
    let i = c.info.unwrap();
    (i.name@, i.plugin_type@, pair_views(i.display@), pair_views(i.language@), c.path@)
}

/// The plugin of a type with a name among entries: the last one added.
pub open spec fn find_entry(es: Seq<(Seq<char>, Seq<char>, PluginModel)>, t: Seq<char>, name: Seq<char>) -> Option<PluginModel>
    decreases es.len(),
{
    if es.len() == 0 {
        None
    } else if es.last().0 == t && es.last().1 == name {
        Some(es.last().2)
    } else {
        find_entry(es.drop_last(), t, name)
    }
}

/// The entries without those of a type and name.
pub open spec fn remove_entry(es: Seq<(Seq<char>, Seq<char>, PluginModel)>, t: Seq<char>, name: Seq<char>) -> Seq<(Seq<char>, Seq<char>, PluginModel)>
    decreases es.len(),
{
    if es.len() == 0 {
        es
    } else {
        let r = remove_entry(es.drop_last(), t, name);
        if es.last().0 == t && es.last().1 == name {
            r
        } else {
            r.push(es.last())
        }
    }
}

pub proof fn lemma_find_remove(es: Seq<(Seq<char>, Seq<char>, PluginModel)>, t: Seq<char>, name: Seq<char>, t2: Seq<char>, n2: Seq<char>)
    ensures
        find_entry(remove_entry(es, t, name), t2, n2) == (if t2 == t && n2 == name {
            None
        } else {
            find_entry(es, t2, n2)
        }),
    decreases es.len(),
{
    if es.len() > 0 {
        lemma_find_remove(es.drop_last(), t, name, t2, n2);
        let r = remove_entry(es.drop_last(), t, name);
        if !(es.last().0 == t && es.last().1 == name) {
            assert(r.push(es.last()).drop_last() =~= r);
        }
    }
}

/// The names of the entries of a type, each once, in the order of their first entry.
pub open spec fn listed(es: Seq<(Seq<char>, Seq<char>, PluginModel)>, t: Seq<char>) -> Seq<Seq<char>>
    decreases es.len(),
{
    if es.len() == 0 {
        Seq::empty()
    } else {
        let r = listed(es.drop_last(), t);
        if es.last().0 == t && !r.contains(es.last().1) {
            r.push(es.last().1)
        } else {
            r
        }
    }
}

/// The plugin of a type with a name after the candidates were taken in, in order.
pub open spec fn discovered(es: Seq<(Seq<char>, Seq<char>, PluginModel)>, found: Seq<PluginCandidate>, t: Seq<char>, name: Seq<char>) -> Option<PluginModel>
    decreases found.len(),
{
    if found.len() == 0 {
        find_entry(es, t, name)
    } else {
        let c = found.last();
        if accepted(c) && c.plugin_type@ == t && c.name@ == name {
            Some(candidate_plugin(c))
        } else {
            discovered(es, found.drop_last(), t, name)
        }
    }
}

/// The installed plugins by type and name.
pub struct PluginManager {
    plugins: Vec<(String, String, Plugin)>,
}

impl PluginManager {
    /// The plugins by type and name, in the order they were added.
    pub closed spec fn entries(&self) -> Seq<(Seq<char>, Seq<char>, PluginModel)> {
        self.plugins@.map_values(|e: (String, String, Plugin)| (e.0@, e.1@, plugin_view(e.2)))
    }

    /// The plugin of a type with a name.
    pub open spec fn find(&self, t: Seq<char>, name: Seq<char>) -> Option<PluginModel> {
        find_entry(self.entries(), t, name)
    }

    /// A manager with no plugins; [`discover_all`](Self::discover_all) fills it.
    pub fn new() -> (r: Self)
        ensures
            forall|t: Seq<char>, n: Seq<char>| #[trigger] r.find(t, n) is None,
    {
        let r = PluginManager { plugins: Vec::new() };
        assert(r.entries() =~= Seq::<(Seq<char>, Seq<char>, PluginModel)>::empty());
        r
    }

    fn remove_key(&mut self, t: &str, name: &str)
        ensures
            final(self).entries() == remove_entry(old(self).entries(), t@, name@),
    {
        let ghost e0 = self.entries();
        let mut kept: Vec<(String, String, Plugin)> = Vec::new();
        let mut old_list: Vec<(String, String, Plugin)> = Vec::new();
        std::mem::swap(&mut old_list, &mut self.plugins);
        let n = old_list.len();
        let mut i: usize = 0;
        while i < n
            invariant
                n == old_list@.len(),
                e0 == old_list@.map_values(|e: (String, String, Plugin)| (e.0@, e.1@, plugin_view(e.2))),
                i <= n,
                kept@.map_values(|e: (String, String, Plugin)| (e.0@, e.1@, plugin_view(e.2)))
                    == remove_entry(e0.take(i as int), t@, name@),
            decreases n - i,
        {
            proof {
                assert(e0.take(i + 1).drop_last() =~= e0.take(i as int));
            }
            let e = &old_list[i];
            if !(str_eq(e.0.as_str(), t) && str_eq(e.1.as_str(), name)) {
                let ghost before = kept@.map_values(|e: (String, String, Plugin)| (e.0@, e.1@, plugin_view(e.2)));
                let c = (e.0.clone(), e.1.clone(), e.2.copy());
                kept.push(c);
                assert(kept@.map_values(|e: (String, String, Plugin)| (e.0@, e.1@, plugin_view(e.2))) =~= before.push(
                    e0[i as int],
                ));
            }
            i = i + 1;
        }
        assert(e0.take(n as int) =~= e0);
        self.plugins = kept;
    }

    /// Adds a plugin under a type and name, replacing the one there.
    fn add(&mut self, t: &str, name: &str, p: Plugin)
        ensures
            final(self).entries() == remove_entry(old(self).entries(), t@, name@).push((t@, name@, plugin_view(p))),
    {
        self.remove_key(t, name);
        let ghost before = self.entries();
        let ghost pv = plugin_view(p);
        self.plugins.push((t.to_string(), name.to_string(), p));
        assert(self.entries() =~= before.push((t@, name@, pv)));
    }

    /// Takes in the plugins among the directories found: each accepted candidate is
    /// added under its type and name, replacing a plugin of the same type and name.
    pub fn discover_all(&mut self, found: &Vec<PluginCandidate>)
        ensures
            forall|t: Seq<char>, n: Seq<char>|
                #[trigger] final(self).find(t, n) == discovered(old(self).entries(), found@, t, n),
    {
        let ghost e0 = self.entries();
        let mut i: usize = 0;
        while i < found.len()
            invariant
                i <= found@.len(),
                forall|t: Seq<char>, nm: Seq<char>| #[trigger] find_entry(self.entries(), t, nm) == discovered(e0, found@.take(i as int), t, nm),
            decreases found@.len() - i,
        {
            proof {
                assert(found@.take(i + 1).drop_last() =~= found@.take(i as int));
                reveal_strlit("translate");
                reveal_strlit("recognize");
                reveal_strlit("tts");
                reveal_strlit("collection");
            }
            let c = &found[i];
            let known = str_eq(c.plugin_type.as_str(), "translate") || str_eq(c.plugin_type.as_str(), "recognize")
                || str_eq(c.plugin_type.as_str(), "tts") || str_eq(c.plugin_type.as_str(), "collection");
            proof {
                assert(known == plugin_types().contains(c.plugin_type@)) by {
                    if plugin_types().contains(c.plugin_type@) {
                        let k = choose|k: int| 0 <= k < 4 && plugin_types()[k] == c.plugin_type@;
                    }
                    if known {
                        if c.plugin_type@ == "translate"@ {
                            assert(plugin_types()[0] == c.plugin_type@);
                        } else if c.plugin_type@ == "recognize"@ {
                            assert(plugin_types()[1] == c.plugin_type@);
                        } else if c.plugin_type@ == "tts"@ {
                            assert(plugin_types()[2] == c.plugin_type@);
                        } else {
                            assert(plugin_types()[3] == c.plugin_type@);
                        }
                    }
                }
            }
            if c.is_dir && known && starts_with(c.name.as_str(), "plugin") {
                match &c.info {
                    Some(info) => {
                        let ghost es = self.entries();
                        let p = Plugin { info: copy_info(info), path: c.path.clone() };
                        self.add(c.plugin_type.as_str(), c.name.as_str(), p);
                        proof {
                            assert forall|t: Seq<char>, nm: Seq<char>| #[trigger] find_entry(self.entries(), t, nm) == discovered(
                                e0,
                                found@.take(i + 1),
                                t,
                                nm,
                            ) by {
                                assert(find_entry(es, t, nm) == discovered(e0, found@.take(i as int), t, nm));
                                assert(accepted(*c));
                                assert(candidate_plugin(*c) == plugin_view(p));
                                let ne = remove_entry(es, c.plugin_type@, c.name@).push(
                                    (c.plugin_type@, c.name@, plugin_view(p)),
                                );
                                assert(ne.drop_last() =~= remove_entry(es, c.plugin_type@, c.name@));
                                lemma_find_remove(es, c.plugin_type@, c.name@, t, nm);
                            }
                        }
                    },
                    None => {},
                }
            }
            proof {
                assert forall|t: Seq<char>, nm: Seq<char>| #[trigger] find_entry(self.entries(), t, nm) == discovered(
                    e0,
                    found@.take(i + 1),
                    t,
                    nm,
                ) by {
                    if !(accepted(*c) && c.plugin_type@ == t && c.name@ == nm) {
                        assert(discovered(e0, found@.take(i + 1), t, nm) == discovered(e0, found@.take(i as int), t, nm));
                    }
                }
            }
            i = i + 1;
        }
        assert(found@.take(found@.len() as int) =~= found@);
    }

    /// The plugin of a type with a name.
    pub fn get(&self, plugin_type: &str, name: &str) -> (r: Option<&Plugin>)
        ensures
            match r {
                Some(p) => self.find(plugin_type@, name@) == Some(plugin_view(*p)),
                None => self.find(plugin_type@, name@) is None,
            },
    {
        let ghost es = self.entries();
        let mut i = self.plugins.len();
        assert(es.take(i as int) =~= es);
        while i > 0
            invariant
                es == self.entries(),
                es.len() == self.plugins@.len(),
                i <= self.plugins@.len(),
                find_entry(es, plugin_type@, name@) == find_entry(es.take(i as int), plugin_type@, name@),
            decreases i,
        {
            let e = &self.plugins[i - 1];
            proof {
                assert(es.take(i as int).drop_last() =~= es.take(i - 1));
                assert(es.take(i as int).last() == es[i - 1]);
            }
            if str_eq(e.0.as_str(), plugin_type) && str_eq(e.1.as_str(), name) {
                return Some(&e.2);
            }
            i = i - 1;
        }
        None
    }

    /// The names of the plugins of a type, each once, in the order they were first
    /// added.
    pub open spec fn names_of(&self, t: Seq<char>) -> Seq<Seq<char>> {
        listed(self.entries(), t)
    }

    /// The names of the plugins of a type, each once.
    pub fn list(&self, plugin_type: &str) -> (r: Vec<String>)
        ensures
            views(r@) == self.names_of(plugin_type@),
            views(r@).no_duplicates(),
            forall|n: Seq<char>| views(r@).contains(n) <==> (#[trigger] self.find(plugin_type@, n)) is Some,
    {
        let ghost es = self.entries();
        let mut out: Vec<String> = Vec::new();
        let mut i: usize = 0;
        while i < self.plugins.len()
            invariant
                es == self.entries(),
                es.len() == self.plugins@.len(),
                i <= self.plugins@.len(),
                views(out@).no_duplicates(),
                views(out@) == listed(es.take(i as int), plugin_type@),
                forall|n: Seq<char>| views(out@).contains(n) <==> (#[trigger] find_entry(es.take(i as int), plugin_type@, n)) is Some,
            decreases self.plugins@.len() - i,
        {
            let e = &self.plugins[i];
            proof {
                assert(es.take(i + 1).drop_last() =~= es.take(i as int));
                assert(es.take(i + 1).last() == es[i as int]);
                assert(es[i as int] == (e.0@, e.1@, plugin_view(e.2)));
            }
            if str_eq(e.0.as_str(), plugin_type) && !crate::config::list_contains(&out, e.1.as_str()) {
                let ghost before = views(out@);
                out.push(e.1.clone());
                proof {
                    assert(views(out@) =~= before.push(e.1@));
                    assert forall|a: int, b: int| 0 <= a < b < views(out@).len() implies views(out@)[a] != views(out@)[b] by {
                        if b == before.len() {
                            assert(before[a] == views(out@)[a]);
                        }
                    }
                    assert forall|n: Seq<char>| views(out@).contains(n) <==> (#[trigger] find_entry(es.take(i + 1), plugin_type@, n)) is Some by {
                        if n == e.1@ {
                            assert(views(out@)[before.len() as int] == n);
                        } else {
                            assert(find_entry(es.take(i + 1), plugin_type@, n) == find_entry(es.take(i as int), plugin_type@, n));
                            if views(out@).contains(n) {
                                let k = choose|k: int| 0 <= k < views(out@).len() && views(out@)[k] == n;
                                assert(before[k] == n);
                            }
                            if before.contains(n) {
                                let k = choose|k: int| 0 <= k < before.len() && before[k] == n;
                                assert(views(out@)[k] == n);
                            }
                        }
                    }
                }
            } else {
                proof {
                    assert forall|n: Seq<char>| views(out@).contains(n) <==> (#[trigger] find_entry(es.take(i + 1), plugin_type@, n)) is Some by {
                        if e.0@ == plugin_type@ && n == e.1@ {
                            assert(views(out@).contains(n));
                        } else {
                            assert(find_entry(es.take(i + 1), plugin_type@, n) == find_entry(es.take(i as int), plugin_type@, n));
                        }
                    }
                }
            }
            i = i + 1;
        }
        assert(es.take(self.plugins@.len() as int) =~= es);
        out
    }

    /// The names of the plugins of a type, each once.
    pub fn get_plugin_list(&self, plugin_type: &str) -> (r: Vec<String>)
        ensures
            views(r@) == self.names_of(plugin_type@),
            views(r@).no_duplicates(),
            forall|n: Seq<char>| views(r@).contains(n) <==> (#[trigger] self.find(plugin_type@, n)) is Some,
    {
        self.list(plugin_type)
    }

    /// Forgets the plugin of a type with a name (its directory is removed apart).
    pub fn uninstall(&mut self, plugin_type: &str, name: &str)
        ensures
            forall|t: Seq<char>, n: Seq<char>|
                #[trigger] final(self).find(t, n) == (if t == plugin_type@ && n == name@ {
                    None
                } else {
                    old(self).find(t, n)
                }),
    {
        let ghost es = self.entries();
        self.remove_key(plugin_type, name);
        proof {
            assert forall|t: Seq<char>, n: Seq<char>|
                #[trigger] self.find(t, n) == (if t == plugin_type@ && n == name@ {
                    None
                } else {
                    find_entry(es, t, n)
                }) by {
                lemma_find_remove(es, plugin_type@, name@, t, n);
            }
        }
    }
}

fn copy_info(i: &PluginInfo) -> (r: PluginInfo)
    ensures
        r.name@ == i.name@,
        r.plugin_type@ == i.plugin_type@,
        pair_views(r.display@) == pair_views(i.display@),
        pair_views(r.language@) == pair_views(i.language@),
{
    let d = copy_pairs(&i.display);
    let l = copy_pairs(&i.language);
    assert(pair_views(d@) =~= pair_views(i.display@));
    assert(pair_views(l@) =~= pair_views(i.language@));
    PluginInfo { name: i.name.clone(), plugin_type: i.plugin_type.clone(), display: d, language: l }
}

// ---------------------------------------------------------------------------
// Installing.
// ---------------------------------------------------------------------------

/// The plugin name of a file to install: the file name without its `.potext`
/// endings, when it starts with `plugin` and ends with `.potext`.
pub open spec fn install_name_of(file_name: Seq<char>) -> Option<Seq<char>> {
    if has_suffix(file_name, ".potext"@) && has_prefix(file_name, "plugin"@) {
        Some(crate::translators::strip_trailing(file_name, ".potext"@))
    } else {
        None
    }
}

pub fn plugin_install_name(file_name: &str) -> (r: Result<String, AppError>)
    ensures
        match install_name_of(file_name@) {
            Some(n) => r matches Ok(s) && s@ == n,
            None => r matches Err(e) && e is Custom && e.message_view() == "Plugin file must be named plugin*.potext"@,
        },
{
    if !ends_with(file_name, ".potext") || !starts_with(file_name, "plugin") {
        return Err(AppError::Custom("Plugin file must be named plugin*.potext".to_string()));
    }
    proof {
        reveal_strlit(".potext");
    }
    Ok(crate::translators::strip_trailing_of(file_name, ".potext"))
}

/// Whether an archive entry may be extracted: none of its `/`-separated parts
/// climbs to a parent directory.
pub open spec fn entry_allowed(name: Seq<char>) -> bool {
    !crate::text::split_char(name, '/').contains(".."@)
}

pub fn archive_entry_allowed(name: &str) -> (r: bool)
    ensures
        r == entry_allowed(name@),
{
    let parts = crate::text::split_on(name, '/');
    let ghost sp = crate::text::split_char(name@, '/');
    proof {
        reveal_strlit("..");
    }
    assert(".."@ =~= seq!['.', '.']);
    let mut i: usize = 0;
    while i < parts.len()
        invariant
            sp == crate::text::split_char(name@, '/'),
            parts@.len() == sp.len(),
            forall|k: int| 0 <= k < parts@.len() ==> #[trigger] parts@[k]@ == sp[k],
            ".."@ == seq!['.', '.'],
            i <= parts@.len(),
            forall|k: int| 0 <= k < i ==> sp[k] != ".."@,
        decreases parts@.len() - i,
    {
        let p = &parts[i];
        if p.len() == 2 && p[0] == '.' && p[1] == '.' {
            assert(p@ =~= seq!['.', '.']);
            assert(sp[i as int] == ".."@);
            return false;
        }
        assert(sp[i as int] != ".."@) by {
            if p@ == ".."@ {
                assert(p@.len() == 2 && p@[0] == '.' && p@[1] == '.');
            }
        }
        i = i + 1;
    }
    true
}

// ---------------------------------------------------------------------------
// Installing a plugin archive.
// ---------------------------------------------------------------------------

/// An entry of a plugin archive: its stored name, its name as a path enclosed in
/// the extraction directory (none when the stored name would leave it), whether it
/// is a directory, and its bytes.
pub struct ArchiveEntry {
    pub name: String,
    pub enclosed: Option<String>,
    pub is_dir: bool,
    pub data: Vec<u8>,
}

pub type ArchiveEntryView = (Seq<char>, Option<Seq<char>>, bool, Seq<u8>);

pub open spec fn opt_string_view(o: Option<String>) -> Option<Seq<char>> {
    match o {
        Some(s) => Some(s@),
        None => None,
    }
}

pub open spec fn archive_entry_view(e: ArchiveEntry) -> ArchiveEntryView {
    (e.name@, opt_string_view(e.enclosed), e.is_dir, e.data@)
}

pub open spec fn archive_views(v: Seq<ArchiveEntry>) -> Seq<ArchiveEntryView> {
    v.map_values(|e: ArchiveEntry| archive_entry_view(e))
}

/// The entries that `zip` reads from an archive's bytes, in the archive's order
/// (each with its `name`, its `enclosed_name`, `is_dir` and its bytes), or the
/// message of the error that stops the reading.
pub uninterp spec fn zip_entries(bytes: Seq<u8>) -> Result<Seq<ArchiveEntryView>, Seq<char>>;

/// `zip::ZipArchive::new` over the bytes, then `by_index` and `read_to_end` of each
/// entry in order, with its `name`, `enclosed_name` (as text) and `is_dir`; an
/// error is written with `Display`. The result is named [`zip_entries`].
#[verifier::external_body]
fn archive_entries(bytes: &Vec<u8>) -> (r: Result<Vec<ArchiveEntry>, String>)
    ensures
        match zip_entries(bytes@) {
            Ok(es) => r matches Ok(v) && archive_views(v@) == es,
            Err(m) => r matches Err(x) && x@ == m,
        },
{
    let mut archive = zip::ZipArchive::new(std::io::Cursor::new(bytes.as_slice())).map_err(|e| e.to_string())?;
    let mut out = Vec::new();
    for i in 0..archive.len() {
        let mut f = archive.by_index(i).map_err(|e| e.to_string())?;
        let mut data = Vec::new();
        std::io::Read::read_to_end(&mut f, &mut data).map_err(|e| e.to_string())?;
        let enclosed = f.enclosed_name().map(|p| p.to_string_lossy().into_owned());
        out.push(ArchiveEntry { name: f.name().to_string(), enclosed, is_dir: f.is_dir(), data });
    }
    Ok(out)
}

/// The files a plugin archive puts in the plugin's directory: each entry whose
/// enclosed name exists and has no `..` part, under that name (relative to the
/// plugin's directory), in archive order; the other entries are skipped.
pub open spec fn extracted(es: Seq<ArchiveEntryView>) -> Seq<(Seq<char>, bool, Seq<u8>)>
    decreases es.len(),
{
    if es.len() == 0 {
        Seq::empty()
    } else {
        let r = extracted(es.drop_last());
        let e = es.last();
        match e.1 {
            Some(p) => if entry_allowed(p) {
                r.push((p, e.2, e.3))
            } else {
                r
            },
            None => r,
        }
    }
}

/// The bytes of the first archive entry named `info.json`.
pub open spec fn info_data(es: Seq<ArchiveEntryView>) -> Option<Seq<u8>>
    decreases es.len(),
{
    if es.len() == 0 {
        None
    } else if es[0].0 == "info.json"@ {
        Some(es[0].3)
    } else {
        info_data(es.drop_first())
    }
}

/// What installing a plugin archive does: the plugin's name, its `info.json`
/// (which tells its type, hence the directory), and the files to write into the
/// plugin's directory, each relative to it.
pub struct InstallPlan {
    pub name: String,
    pub info_json: Vec<u8>,
    pub files: Vec<(String, bool, Vec<u8>)>,
}

pub open spec fn file_views(v: Seq<(String, bool, Vec<u8>)>) -> Seq<(Seq<char>, bool, Seq<u8>)> {
    v.map_values(|f: (String, bool, Vec<u8>)| (f.0@, f.1, f.2@))
}

fn copy_bytes(b: &Vec<u8>) -> (r: Vec<u8>)
    ensures
        r@ == b@,
{
    let mut r: Vec<u8> = Vec::new();
    let mut i: usize = 0;
    while i < b.len()
        invariant
            i <= b@.len(),
            r@ == b@.take(i as int),
        decreases b@.len() - i,
    {
        r.push(b[i]);
        proof {
            assert(b@.take(i + 1) =~= b@.take(i as int).push(b@[i as int]));
        }
        i = i + 1;
    }
    assert(b@.take(b@.len() as int) =~= b@);
    r
}

/// The plan for installing a plugin archive of a file name from its entries: the
/// file name must be `plugin*.potext` and the archive must hold `info.json`; the
/// files are the entries whose enclosed name has no `..` part, the others skipped.
pub fn install_plan(file_name: &str, entries: &Vec<ArchiveEntry>) -> (r: Result<InstallPlan, AppError>)
    ensures
        match install_name_of(file_name@) {
            None => r matches Err(e) && e.message_view() == "Plugin file must be named plugin*.potext"@,
            Some(n) => match info_data(archive_views(entries@)) {
                None => r matches Err(e) && e.message_view() == "Plugin missing info.json"@,
                Some(info) => r matches Ok(p) && p.name@ == n && p.info_json@ == info && file_views(p.files@)
                    == extracted(archive_views(entries@)),
            },
        },
        r matches Ok(p) ==> forall|i: int| 0 <= i < p.files@.len() ==> entry_allowed(#[trigger] p.files@[i].0@),
{
    let name = match plugin_install_name(file_name) {
        Ok(n) => n,
        Err(e) => return Err(e),
    };
    let ghost ev = archive_views(entries@);
    let mut info: Option<Vec<u8>> = None;
    let mut files: Vec<(String, bool, Vec<u8>)> = Vec::new();
    let mut i: usize = 0;
    proof {
        reveal_strlit("info.json");
        assert(ev.skip(0) =~= ev);
    }
    while i < entries.len()
        invariant
            ev == archive_views(entries@),
            ev.len() == entries@.len(),
            i <= entries@.len(),
            file_views(files@) == extracted(ev.take(i as int)),
            forall|k: int| 0 <= k < files@.len() ==> entry_allowed(#[trigger] files@[k].0@),
            match info {
                Some(b) => info_data(ev) == Some(b@),
                None => info_data(ev) == info_data(ev.skip(i as int)),
            },
        decreases entries@.len() - i,
    {
        let e = &entries[i];
        proof {
            assert(ev[i as int] == archive_entry_view(entries@[i as int]));
            assert(ev.take(i + 1).drop_last() =~= ev.take(i as int));
            assert(ev.skip(i as int).drop_first() =~= ev.skip(i + 1));
            assert(ev.skip(i as int)[0] == ev[i as int]);
        }
        if info.is_none() && str_eq(e.name.as_str(), "info.json") {
            info = Some(copy_bytes(&e.data));
        }
        match &e.enclosed {
            Some(p) => {
                if archive_entry_allowed(p.as_str()) {
                    let f = (p.clone(), e.is_dir, copy_bytes(&e.data));
                    proof {
                        assert(file_views(files@.push(f)) =~= file_views(files@).push((f.0@, f.1, f.2@)));
                    }
                    files.push(f);
                }
            },
            None => {},
        }
        i = i + 1;
    }
    proof {
        assert(ev.take(entries@.len() as int) =~= ev);
        assert(ev.skip(entries@.len() as int) =~= Seq::<ArchiveEntryView>::empty());
    }
    match info {
        Some(b) => Ok(InstallPlan { name, info_json: b, files }),
        None => Err(AppError::Custom("Plugin missing info.json".to_string())),
    }
}

/// The plan for installing a plugin archive of a file name from the archive's
/// bytes: the name is checked first, then the archive read (its reading error as
/// `Invalid plugin archive: <message>`), then [`install_plan`].
pub fn install_archive(file_name: &str, archive: &Vec<u8>) -> (r: Result<InstallPlan, AppError>)
    ensures
        match install_name_of(file_name@) {
            None => r matches Err(e) && e.message_view() == "Plugin file must be named plugin*.potext"@,
            Some(n) => match zip_entries(archive@) {
                Err(m) => r matches Err(e) && e.message_view() == "Invalid plugin archive: "@ + m,
                Ok(es) => match info_data(es) {
                    None => r matches Err(e) && e.message_view() == "Plugin missing info.json"@,
                    Some(info) => r matches Ok(p) && p.name@ == n && p.info_json@ == info && file_views(p.files@)
                        == extracted(es),
                },
            },
        },
        r matches Ok(p) ==> forall|i: int| 0 <= i < p.files@.len() ==> entry_allowed(#[trigger] p.files@[i].0@),
{
    match plugin_install_name(file_name) {
        Ok(_) => {},
        Err(e) => return Err(e),
    }
    match archive_entries(archive) {
        Ok(entries) => install_plan(file_name, &entries),
        Err(m) => {
            let mut msg = "Invalid plugin archive: ".to_string();
            msg.append(m.as_str());
            proof {
                reveal_strlit("Invalid plugin archive: ");
            }
            Err(AppError::Custom(msg))
        },
    }
}

// ---------------------------------------------------------------------------
// Running a plugin.
// ---------------------------------------------------------------------------

/// The script run for a plugin: its `main.js` in a function that returns `result`.
pub open spec fn wrapped_script(script: Seq<char>) -> Seq<char> {
    "(function() {\n"@ + script + "\nreturn result;\n})()"@
}

/// The program handed to the JavaScript engine for a plugin, built from its
/// script as read: the script wrapped so that it returns `result`, or the reading
/// error's message. It returns the program, not what the engine makes of it.
pub fn execute_plugin_with_input(plugin: &Plugin, script: Result<String, AppError>) -> (r: Result<String, String>)
    ensures
        match script {
            Ok(s) => r matches Ok(w) && w@ == wrapped_script(s@),
            Err(e) => r matches Err(m) && m@ == e.message_view(),
        },
{
    match script {
        Ok(s) => {
            let mut w = "(function() {\n".to_string();
            w.append(s.as_str());
            w.append("\nreturn result;\n})()");
            Ok(w)
        },
        Err(e) => Err(e.message()),
    }
}

/// Translation through a translate plugin.
pub struct PluginTranslateService {
    pub plugin: Plugin,
}

/// The arguments handed to a plugin's script: the request as a JSON object.
pub open spec fn plugin_args(config: JsonView, text: Seq<char>, from: Seq<char>, to: Seq<char>) -> Seq<char> {
    json_text(
        JsonView::Object(
            seq![
                ("config"@, config),
                ("from"@, JsonView::Str(from)),
                ("text"@, JsonView::Str(text)),
                ("to"@, JsonView::Str(to)),
            ],
        ),
    )
}

impl PluginTranslateService {
    pub fn new(plugin: Plugin) -> (r: Self)
        ensures
            plugin_view(r.plugin) == plugin_view(plugin),
    {
        PluginTranslateService { plugin }
    }

    /// The plugin's name.
    pub fn name(&self) -> (r: String)
        ensures
            r@ == self.plugin.info.name@,
    {
        self.plugin.info.name.clone()
    }

    /// A plugin instance has no default settings.
    pub fn default_config(&self) -> (r: Json)
        ensures
            r@ == JsonView::Null,
    {
        Json::Null
    }

    /// The arguments for the plugin's script.
    pub fn script_args(&self, req: &TranslateRequest) -> (r: String)
        ensures
            r@ == plugin_args(req.config@, req.text@, req.from@, req.to@),
    {
        let mut es: Vec<(String, Json)> = Vec::new();
        es.push(("config".to_string(), req.config.deep_clone()));
        es.push(("from".to_string(), Json::Str(req.from.clone())));
        es.push(("text".to_string(), Json::Str(req.text.clone())));
        es.push(("to".to_string(), Json::Str(req.to.clone())));
        let o = Json::Object(es);
        proof {
            crate::json::lemma_entries_view(es@);
            assert(crate::json::json_entries_view(es@) =~= seq![
                ("config"@, req.config@),
                ("from"@, JsonView::Str(req.from@)),
                ("text"@, JsonView::Str(req.text@)),
                ("to"@, JsonView::Str(req.to@)),
            ]);
        }
        to_json_text(&o)
    }

    /// The result of running the script: its output as the translation, or its
    /// error under the plugin's name.
    pub fn result(&self, output: Result<String, String>) -> (r: Result<TranslateResult, ServiceError>)
        ensures
            match output {
                Ok(o) => r matches Ok(t) && t@ == TranslateResultView::Text(o@),
                Err(m) => r matches Err(e) && e.service@ == self.plugin.info.name@ && e.message@ == m@,
            },
    {
        match output {
            Ok(o) => Ok(TranslateResult::Text(o)),
            Err(m) => Err(ServiceError { service: self.name(), message: m }),
        }
    }
}

/// A translation service for each translate plugin.
pub fn create_translate_adapters(manager: &PluginManager) -> (r: Vec<PluginTranslateService>)
    ensures
        r@.len() == manager.names_of("translate"@).len(),
        forall|i: int|
            0 <= i < r@.len() ==> Some(plugin_view(#[trigger] r@[i].plugin)) == manager.find(
                "translate"@,
                manager.names_of("translate"@)[i],
            ),
        forall|i: int|
            0 <= i < r@.len() ==> exists|n: Seq<char>|
                manager.find("translate"@, n) == Some(plugin_view(#[trigger] r@[i].plugin)),
        forall|n: Seq<char>|
            (#[trigger] manager.find("translate"@, n)) is Some ==> exists|i: int|
                0 <= i < r@.len() && Some(plugin_view(r@[i].plugin)) == manager.find("translate"@, n),
{
    proof {
        reveal_strlit("translate");
    }
    let names = manager.list("translate");
    let mut out: Vec<PluginTranslateService> = Vec::new();
    let mut i: usize = 0;
    while i < names.len()
        invariant
            i <= names@.len(),
            forall|n: Seq<char>| views(names@).contains(n) <==> (#[trigger] manager.find("translate"@, n)) is Some,
            out@.len() == i,
            forall|k: int|
                0 <= k < i ==> Some(plugin_view(#[trigger] out@[k].plugin)) == manager.find("translate"@, views(names@)[k]),
        decreases names@.len() - i,
    {
        proof {
            assert(views(names@)[i as int] == names@[i as int]@);
            assert(views(names@).contains(names@[i as int]@));
        }
        match manager.get("translate", names[i].as_str()) {
            Some(p) => {
                let a = PluginTranslateService::new(p.copy());
                out.push(a);
            },
            None => {
                proof {
                    assert(false);
                }
            },
        }
        i = i + 1;
    }
    proof {
        assert forall|i: int| 0 <= i < out@.len() implies exists|n: Seq<char>|
            manager.find("translate"@, n) == Some(plugin_view(#[trigger] out@[i].plugin)) by {
            assert(manager.find("translate"@, views(names@)[i]) == Some(plugin_view(out@[i].plugin)));
        }
        assert forall|n: Seq<char>| (#[trigger] manager.find("translate"@, n)) is Some implies exists|i: int|
            0 <= i < out@.len() && Some(plugin_view(out@[i].plugin)) == manager.find("translate"@, n) by {
            assert(views(names@).contains(n));
            let k = choose|k: int| 0 <= k < views(names@).len() && views(names@)[k] == n;
            assert(Some(plugin_view(out@[k].plugin)) == manager.find("translate"@, n));
        }
    }
    out
}

} // verus!
