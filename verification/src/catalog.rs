//! The plugin catalog: what the experts tree's marketplace manifest and each
//! plugin's `plugin.json` say of a plugin, and the selection of plugins by
//! name.
use vstd::prelude::*;
use crate::json::{
    doc_of, field, into_items, items_of, items_view, jview, lookup, lookup_in, opt_jview, read_doc, reads_as,
    take_field, text_at, Json, JsonV,
};
use crate::text::{contains_text, join, join_path, owned, same_text};

verus! {

broadcast use vstd::string::group_string_axioms;

/// What a JSON document holds under a key, as far as a string is wanted:
/// nothing, a string, or a value of another kind.
pub enum JsonText {
    Missing,
    Text(String),
    Other,
}

/// The string a `JsonText` holds, or `default`.
pub open spec fn text_or(j: JsonText, default: Seq<char>) -> Seq<char> {
    match j {
        JsonText::Text(s) => s@,
        _ => default,
    }
}

/// What a plugin's `plugin.json` and avatar files say of it.
pub struct PluginMeta {
    /// `displayName.zh`.
    pub display_zh: JsonText,
    /// `displayName.en`.
    pub display_en: JsonText,
    /// `version`.
    pub version: JsonText,
    /// `description`.
    pub description: JsonText,
    /// `expertType`.
    pub expert_type: JsonText,
    /// Whether `avatars/team.png` is a file.
    pub has_team_icon: bool,
    /// Whether `avatars/expert.png` is a file.
    pub has_expert_icon: bool,
}

/// One entry of the marketplace manifest's `plugins` array, with the
/// metadata of the plugin it names.
pub struct CatalogEntry {
    /// The entry's `name`.
    pub name: JsonText,
    /// The entry's `description`.
    pub description: JsonText,
    /// What the named plugin's own files say (all missing when it has none).
    pub meta: PluginMeta,
}

/// A plugin offered for installation.
pub struct PluginInfo {
    pub name: String,
    pub display_name: String,
    pub version: String,
    pub description: String,
    pub is_team: bool,
    pub has_icon: bool,
    pub plugin_path: String,
}

/// The directory of plugin `name` in the experts tree `experts`.
pub open spec fn plugin_dir_spec(experts: Seq<char>, name: Seq<char>) -> Seq<char> {
    join_path(join_path(experts, "plugins"@), name)
}

/// The display name: `displayName.zh` when that key is there, else
/// `displayName.en`, and the plugin's name when the chosen one is no string.
pub open spec fn display_name_of(m: PluginMeta, name: Seq<char>) -> Seq<char> {
    match m.display_zh {
        JsonText::Missing => text_or(m.display_en, name),
        _ => text_or(m.display_zh, name),
    }
}

/// The plugin's own description, else the manifest entry's, else empty.
pub open spec fn description_of(m: PluginMeta, entry_description: JsonText) -> Seq<char> {
    match m.description {
        JsonText::Text(s) => s@,
        _ => text_or(entry_description, seq![]),
    }
}

/// A plugin is a team unless its `expertType` is a string other than `team`.
pub open spec fn is_team_of(m: PluginMeta) -> bool {
    match m.expert_type {
        JsonText::Text(t) => t@ == "team"@,
        _ => true,
    }
}

/// `p` is what the catalog lists for a manifest entry named `name` in the
/// experts tree `experts`.
pub open spec fn describes(p: PluginInfo, experts: Seq<char>, name: Seq<char>, e: CatalogEntry) -> bool {
    &&& p.name@ == name
    &&& p.display_name@ == display_name_of(e.meta, name)
    &&& p.version@ == text_or(e.meta.version, "1.0.0"@)
    &&& p.description@ == description_of(e.meta, e.description)
    &&& p.is_team == is_team_of(e.meta)
    &&& p.has_icon == (e.meta.has_team_icon || e.meta.has_expert_icon)
    &&& p.plugin_path@ == plugin_dir_spec(experts, name)
}

/// The manifest entries that have a string name, in order.
pub open spec fn named_entries(entries: Seq<CatalogEntry>) -> Seq<CatalogEntry>
    decreases entries.len(),
{
    if entries.len() == 0 {
        seq![]
    } else {
        let rest = named_entries(entries.drop_last());
        if entries.last().name is Text {
            rest.push(entries.last())
        } else {
            rest
        }
    }
}

/// The entries of the `plugins` array of a marketplace manifest (none where
/// there is no manifest or it has no such array).
pub open spec fn plugin_entries(doc: Option<JsonV>) -> Seq<JsonV> {
    items_of(lookup_in(doc, "plugins"@))
}

/// `m` is what the `plugin.json` document `doc` says of a plugin (all missing
/// where there is none), with the avatar files as found.
pub open spec fn meta_of(m: PluginMeta, doc: Option<JsonV>, has_team_icon: bool, has_expert_icon: bool) -> bool {
    let display = lookup_in(doc, "displayName"@);
    &&& reads_as(lookup_in(display, "zh"@), m.display_zh)
    &&& reads_as(lookup_in(display, "en"@), m.display_en)
    &&& reads_as(lookup_in(doc, "version"@), m.version)
    &&& reads_as(lookup_in(doc, "description"@), m.description)
    &&& reads_as(lookup_in(doc, "expertType"@), m.expert_type)
    &&& m.has_team_icon == has_team_icon
    &&& m.has_expert_icon == has_expert_icon
}

/// The entries of the marketplace manifest whose text is `text` (`None`
/// where the file could not be read).
pub fn manifest_entries(text: Option<&str>) -> (r: Vec<Json>)
    ensures
        items_view(r@) == plugin_entries(doc_of(text)),
{
    entries_of(read_doc(text))
}

/// The entries of the marketplace manifest `doc` (none where there is none).
pub fn entries_of(doc: Option<Json>) -> (r: Vec<Json>)
    ensures
        items_view(r@) == plugin_entries(opt_jview(doc)),
{
    match doc {
        Some(d) => into_items(take_field(d, "plugins")),
        None => into_items(None),
    }
}

/// What a plugin's `plugin.json`, whose text is `plugin_json` (`None` where it
/// could not be read), and its avatar files say of it.
pub fn plugin_meta(plugin_json: Option<&str>, has_team_icon: bool, has_expert_icon: bool) -> (r: PluginMeta)
    ensures
        meta_of(r, doc_of(plugin_json), has_team_icon, has_expert_icon),
{
    meta_from(read_doc(plugin_json), has_team_icon, has_expert_icon)
}

/// What the `plugin.json` document `doc` (`None` where there is none) and the
/// avatar files say of a plugin.
pub fn meta_from(doc: Option<Json>, has_team_icon: bool, has_expert_icon: bool) -> (r: PluginMeta)
    ensures
        meta_of(r, opt_jview(doc), has_team_icon, has_expert_icon),
{
    match doc {
        Some(doc) => {
            let (display_zh, display_en) = match field(&doc, "displayName") {
                Some(d) => (text_at(d, "zh"), text_at(d, "en")),
                None => (JsonText::Missing, JsonText::Missing),
            };
            PluginMeta {
                display_zh,
                display_en,
                version: text_at(&doc, "version"),
                description: text_at(&doc, "description"),
                expert_type: text_at(&doc, "expertType"),
                has_team_icon,
                has_expert_icon,
            }
        },
        None => PluginMeta {
            display_zh: JsonText::Missing,
            display_en: JsonText::Missing,
            version: JsonText::Missing,
            description: JsonText::Missing,
            expert_type: JsonText::Missing,
            has_team_icon,
            has_expert_icon,
        },
    }
}

/// The catalog entry for the manifest entry `entry`, whose plugin's own
/// files say `meta`.
pub fn catalog_entry(entry: &Json, meta: PluginMeta) -> (r: CatalogEntry)
    ensures
        reads_as(lookup(jview(*entry), "name"@), r.name),
        reads_as(lookup(jview(*entry), "description"@), r.description),
        r.meta == meta,
{
    CatalogEntry { name: text_at(entry, "name"), description: text_at(entry, "description"), meta }
}

/// The directory of plugin `name` in the experts tree `experts`.
pub fn plugin_dir(experts: &str, name: &str) -> (r: String)
    ensures
        r@ == plugin_dir_spec(experts@, name@),
{
    let plugins = join(experts, "plugins");
    join(plugins.as_str(), name)
}

fn text_or_else(j: &JsonText, default: &str) -> (r: String)
    ensures
        r@ == text_or(*j, default@),
{
    match j {
        JsonText::Text(s) => owned(s.as_str()),
        _ => owned(default),
    }
}

/// What the catalog lists for manifest entry `e`, named `name`.
pub fn plugin_info(experts: &str, name: &str, e: &CatalogEntry) -> (r: PluginInfo)
    ensures
        describes(r, experts@, name@, *e),
{
    let m = &e.meta;
    let display_name = match &m.display_zh {
        JsonText::Missing => text_or_else(&m.display_en, name),
        other => text_or_else(other, name),
    };
    let description = match &m.description {
        JsonText::Text(s) => owned(s.as_str()),
        _ => match &e.description {
            JsonText::Text(s) => owned(s.as_str()),
            _ => String::new(),
        },
    };
    let is_team = match &m.expert_type {
        JsonText::Text(t) => same_text(t.as_str(), "team"),
        _ => true,
    };
    PluginInfo {
        name: owned(name),
        display_name,
        version: text_or_else(&m.version, "1.0.0"),
        description,
        is_team,
        has_icon: m.has_team_icon || m.has_expert_icon,
        plugin_path: plugin_dir(experts, name),
    }
}

/// The catalog of the experts tree `experts`: one plugin for each manifest
/// entry that has a string name, in manifest order.
pub fn list_plugins(experts: &str, entries: &Vec<CatalogEntry>) -> (r: Vec<PluginInfo>)
    ensures
        r@.len() == named_entries(entries@).len(),
        forall|k: int|
            0 <= k < r@.len() ==> #[trigger] describes(
                r@[k],
                experts@,
                text_or(named_entries(entries@)[k].name, seq![]),
                named_entries(entries@)[k],
            ),
{
    let mut r: Vec<PluginInfo> = Vec::new();
    let mut i: usize = 0;
    while i < entries.len()
        invariant
            i <= entries@.len(),
            r@.len() == named_entries(entries@.take(i as int)).len(),
            forall|k: int|
                0 <= k < r@.len() ==> #[trigger] describes(
                    r@[k],
                    experts@,
                    text_or(named_entries(entries@.take(i as int))[k].name, seq![]),
                    named_entries(entries@.take(i as int))[k],
                ),
        decreases entries@.len() - i,
    {
        let e = &entries[i];
        assert(entries@.take(i + 1).drop_last() =~= entries@.take(i as int));
        assert(entries@.take(i + 1).last() == entries@[i as int]);
        match &e.name {
            JsonText::Text(n) => {
                let p = plugin_info(experts, n.as_str(), e);
                r.push(p);
            },
            _ => {},
        }
        i = i + 1;
    }
    assert(entries@.take(entries@.len() as int) =~= entries@);
    r
}

/// The plugins of `catalog` whose name is in `names`, in catalog order.
pub open spec fn selected(catalog: Seq<PluginInfo>, names: Seq<String>) -> Seq<PluginInfo>
    decreases catalog.len(),
{
    if catalog.len() == 0 {
        seq![]
    } else {
        let rest = selected(catalog.drop_last(), names);
        if exists|i: int| 0 <= i < names.len() && #[trigger] names[i]@ == catalog.last().name@ {
            rest.push(catalog.last())
        } else {
            rest
        }
    }
}

impl PluginInfo {
    /// A copy of this plugin description.
    pub fn copy(&self) -> (r: PluginInfo)
        ensures
            r == *self,
    {
        PluginInfo {
            name: self.name.clone(),
            display_name: self.display_name.clone(),
            version: self.version.clone(),
            description: self.description.clone(),
            is_team: self.is_team,
            has_icon: self.has_icon,
            plugin_path: self.plugin_path.clone(),
        }
    }
}

/// The plugins of `catalog` that `names` asks for.
pub fn select_plugins(catalog: &Vec<PluginInfo>, names: &Vec<String>) -> (r: Vec<PluginInfo>)
    ensures
        r@ == selected(catalog@, names@),
{
    let mut r: Vec<PluginInfo> = Vec::new();
    let mut i: usize = 0;
    while i < catalog.len()
        invariant
            i <= catalog@.len(),
            r@ == selected(catalog@.take(i as int), names@),
        decreases catalog@.len() - i,
    {
        assert(catalog@.take(i + 1).drop_last() =~= catalog@.take(i as int));
        assert(catalog@.take(i + 1).last() == catalog@[i as int]);
        if contains_text(names, catalog[i].name.as_str()) {
            r.push(catalog[i].copy());
        }
        i = i + 1;
    }
    assert(catalog@.take(catalog@.len() as int) =~= catalog@);
    r
}


/// What the catalog lists for a plugin, field by field: its name; as
/// display name `displayName.zh` where that key holds a string, else the
/// plugin's name where it holds anything else, else `displayName.en` where it
/// is a string, else the name; the version of `plugin.json` where it is a
/// string, else `1.0.0`; the description of `plugin.json` where it is a
/// string, else the manifest entry's where that is one, else nothing; a team
/// unless `expertType` is a string other than `team`; an icon where either
/// avatar file is there; and the plugin's directory in the experts tree.
pub proof fn listed_plugin_fields(p: PluginInfo, experts: Seq<char>, name: Seq<char>, e: CatalogEntry)
    requires
        describes(p, experts, name, e),
    ensures
        p.name@ == name,
        e.meta.display_zh matches JsonText::Text(z) ==> p.display_name@ == z@,
        e.meta.display_zh is Other ==> p.display_name@ == name,
        e.meta.display_zh is Missing ==> (match e.meta.display_en {
            JsonText::Text(en) => p.display_name@ == en@,
            _ => p.display_name@ == name,
        }),
        e.meta.version matches JsonText::Text(v) ==> p.version@ == v@,
        !(e.meta.version is Text) ==> p.version@ == "1.0.0"@,
        e.meta.description matches JsonText::Text(d) ==> p.description@ == d@,
        !(e.meta.description is Text) ==> (match e.description {
            JsonText::Text(d) => p.description@ == d@,
            _ => p.description@ == Seq::<char>::empty(),
        }),
        e.meta.expert_type matches JsonText::Text(t) ==> (p.is_team <==> t@ == "team"@),
        !(e.meta.expert_type is Text) ==> p.is_team,
        p.has_icon <==> (e.meta.has_team_icon || e.meta.has_expert_icon),
        p.plugin_path@ == join_path(join_path(experts, "plugins"@), name),
{
}

/// The catalog lists exactly the manifest entries whose name is a string, in
/// manifest order.
pub proof fn listed_entries_are_the_named_ones(entries: Seq<CatalogEntry>)
    ensures
        named_entries(entries) == entries.filter(|e: CatalogEntry| e.name is Text),
    decreases entries.len(),
{
    reveal(Seq::filter);
    if entries.len() > 0 {
        listed_entries_are_the_named_ones(entries.drop_last());
    }
}

/// Selecting by name picks exactly the catalog's plugins whose name equals
/// one of the names asked for, in catalog order: a plugin whose name only
/// begins with a name asked for is not picked.
pub proof fn selection_is_by_exact_name(catalog: Seq<PluginInfo>, names: Seq<String>)
    ensures
        selected(catalog, names) == catalog.filter(
            |p: PluginInfo| exists|i: int| 0 <= i < names.len() && #[trigger] names[i]@ == p.name@,
        ),
    decreases catalog.len(),
{
    reveal(Seq::filter);
    if catalog.len() > 0 {
        selection_is_by_exact_name(catalog.drop_last(), names);
    }
}

} // verus!
