//! The registry of loaded plugins and the requests that plugins make of
//! the host. The libraries themselves and their entry points are held by
//! the host program, keyed by the same plugin ids.
use vstd::prelude::*;
use crate::text::str_eq;

verus! {

/// What the host knows about a loaded plugin.
pub struct PluginRecord {
    /// The key of the plugin: its name.
    pub id: String,
    pub path: String,
    pub name: String,
    pub version: String,
    pub author: String,
    pub description: String,
    pub enabled: bool,
    /// The plugin exports a per-frame update entry point.
    pub has_update: bool,
    /// The plugin's `plugin_has_config_ui` answered `true` (a plugin that
    /// does not export it has no configuration window).
    pub has_config_ui: bool,
    /// The plugin exports `plugin_open_config_ui`.
    pub can_open_config_ui: bool,
}

/// Loaded plugins and the requests they have made.
pub struct PluginManager {
    pub plugins: Vec<PluginRecord>,
    pub expand_requested: bool,
    pub collapse_requested: bool,
    pub custom_text: String,
}

/// Index of the plugin with this id.
pub open spec fn index_of(plugins: Seq<PluginRecord>, id: Seq<char>, i: int) -> bool {
    0 <= i < plugins.len() && plugins[i].id@ == id
}

/// Whether a plugin with this id is registered.
pub open spec fn has_id(plugins: Seq<PluginRecord>, id: Seq<char>) -> bool {
    exists|i: int| index_of(plugins, id, i)
}

/// No id occurs twice.
pub open spec fn ids_distinct(plugins: Seq<PluginRecord>) -> bool {
    forall|i: int, j: int|
        0 <= i < j < plugins.len() ==> (#[trigger] plugins[i]).id@ != (#[trigger] plugins[j]).id@
}

/// The record with `enabled` set as given and every other field kept.
pub open spec fn with_enabled(r: PluginRecord, enabled: bool) -> PluginRecord {
    PluginRecord {
        id: r.id,
        path: r.path,
        name: r.name,
        version: r.version,
        author: r.author,
        description: r.description,
        enabled,
        has_update: r.has_update,
        has_config_ui: r.has_config_ui,
        can_open_config_ui: r.can_open_config_ui,
    }
}

/// `after` is `before` with the plugin of this id switched on or off.
pub open spec fn toggled(before: Seq<PluginRecord>, after: Seq<PluginRecord>, id: Seq<char>) -> bool {
    exists|i: int|
        index_of(before, id, i) && after == before.update(
            i,
            with_enabled(before[i], !before[i].enabled),
        )
}

/// The record that registering a newly loaded plugin creates: keyed by its
/// name, and disabled until the user enables it in the settings.
pub fn new_record(
    path: String,
    name: String,
    version: String,
    author: String,
    description: String,
    has_update: bool,
    has_config_ui: bool,
    can_open_config_ui: bool,
) -> (r: PluginRecord)
    ensures
        r.id@ == name@,
        r.name == name,
        r.path == path,
        r.version == version,
        r.author == author,
        r.description == description,
        !r.enabled,
        r.has_update == has_update,
        r.has_config_ui == has_config_ui,
        r.can_open_config_ui == can_open_config_ui,
{
    PluginRecord {
        id: name.clone(),
        path,
        name,
        version,
        author,
        description,
        enabled: false,
        has_update,
        has_config_ui,
        can_open_config_ui,
    }
}

/// Ids of the plugins that a frame update calls: the enabled ones that
/// export an update entry point, in order.
pub open spec fn update_targets(plugins: Seq<PluginRecord>) -> Seq<Seq<char>>
    decreases plugins.len(),
{
    if plugins.len() == 0 {
        Seq::empty()
    } else {
        let p = plugins.last();
        let rest = update_targets(plugins.drop_last());
        if p.enabled && p.has_update {
            rest.push(p.id@)
        } else {
            rest
        }
    }
}

impl PluginManager {
    /// No plugin ids occur twice.
    pub open spec fn wf(&self) -> bool {
        ids_distinct(self.plugins@)
    }

    /// No plugins, no requests.
    pub fn new() -> (r: PluginManager)
        ensures
            r.wf(),
            r.plugins@.len() == 0,
            !r.expand_requested,
            !r.collapse_requested,
            r.custom_text@.len() == 0,
    {
        PluginManager {
            plugins: Vec::new(),
            expand_requested: false,
            collapse_requested: false,
            custom_text: String::new(),
        }
    }

    /// Whether no plugin id occurs twice.
    pub fn ids_unique(&self) -> (r: bool)
        ensures
            r == self.wf(),
    {
        let n = self.plugins.len();
        let mut j: usize = 0;
        while j < n
            invariant
                n == self.plugins@.len(),
                j <= n,
                forall|a: int, b: int|
                    0 <= a < b < j ==> (#[trigger] self.plugins@[a]).id@
                        != (#[trigger] self.plugins@[b]).id@,
            decreases n - j,
        {
            let mut i: usize = 0;
            while i < j
                invariant
                    n == self.plugins@.len(),
                    i <= j < n,
                    forall|a: int, b: int|
                        0 <= a < b < j ==> (#[trigger] self.plugins@[a]).id@
                            != (#[trigger] self.plugins@[b]).id@,
                    forall|a: int| 0 <= a < i ==> (#[trigger] self.plugins@[a]).id@
                        != self.plugins@[j as int].id@,
                decreases j - i,
            {
                if self.plugins[i].id == self.plugins[j].id {
                    return false;
                }
                i += 1;
            }
            j += 1;
        }
        true
    }

    /// Position of the plugin with this id.
    pub fn find(&self, id: &str) -> (r: Option<usize>)
        ensures
            match r {
                Some(i) => index_of(self.plugins@, id@, i as int),
                None => !has_id(self.plugins@, id@),
            },
    {
        let mut i: usize = 0;
        while i < self.plugins.len()
            invariant
                i <= self.plugins@.len(),
                forall|j: int| 0 <= j < i ==> (#[trigger] self.plugins@[j]).id@ != id@,
            decreases self.plugins@.len() - i,
        {
            if str_eq(self.plugins[i].id.as_str(), id) {
                return Some(i);
            }
            i += 1;
        }
        None
    }

    /// Registers a loaded plugin; one with the same id is replaced.
    pub fn register(&mut self, record: PluginRecord)
        requires
            old(self).wf(),
        ensures
            final(self).wf(),
            has_id(old(self).plugins@, record.id@) ==> exists|i: int|
                index_of(old(self).plugins@, record.id@, i) && final(self).plugins@ == old(
                    self,
                ).plugins@.update(i, record),
            !has_id(old(self).plugins@, record.id@) ==> final(self).plugins@ == old(
                self,
            ).plugins@.push(record),
            final(self).expand_requested == old(self).expand_requested,
            final(self).collapse_requested == old(self).collapse_requested,
            final(self).custom_text == old(self).custom_text,
    {
        match self.find(record.id.as_str()) {
            Some(i) => {
                let ghost rid = record.id@;
                self.plugins.set(i, record);
                assert(index_of(old(self).plugins@, rid, i as int));
                assert forall|a: int, b: int|
                    0 <= a < b < self.plugins@.len() implies (#[trigger] self.plugins@[a]).id@
                    != (#[trigger] self.plugins@[b]).id@ by {
                    assert(old(self).plugins@[a].id@ != old(self).plugins@[b].id@);
                }
            },
            None => {
                let ghost rid = record.id@;
                self.plugins.push(record);
                assert forall|a: int, b: int|
                    0 <= a < b < self.plugins@.len() implies (#[trigger] self.plugins@[a]).id@
                    != (#[trigger] self.plugins@[b]).id@ by {
                    if b == self.plugins@.len() - 1 {
                        assert(!index_of(old(self).plugins@, rid, a));
                    } else {
                        assert(old(self).plugins@[a].id@ != old(self).plugins@[b].id@);
                    }
                }
            },
        }
    }

    /// Switches the plugin with this id on or off; `false` when there is
    /// no such plugin.
    pub fn toggle_enabled(&mut self, id: &str) -> (found: bool)
        requires
            old(self).wf(),
        ensures
            final(self).wf(),
            found == has_id(old(self).plugins@, id@),
            found ==> toggled(old(self).plugins@, final(self).plugins@, id@),
            !found ==> final(self).plugins@ == old(self).plugins@,
    {
        match self.find(id) {
            Some(i) => {
                let mut rec = self.plugins.remove(i);
                rec.enabled = !rec.enabled;
                self.plugins.insert(i, rec);
                assert(self.plugins@ =~= old(self).plugins@.update(
                    i as int,
                    with_enabled(old(self).plugins@[i as int], !old(self).plugins@[i as int].enabled),
                ));
                assert(index_of(old(self).plugins@, id@, i as int));
                true
            },
            None => false,
        }
    }

    /// Ids of the plugins that take part in a frame update: enabled ones
    /// that export an update entry point, in registry order.
    pub fn update_targets(&self) -> (r: Vec<String>)
        ensures
            r@.map_values(|s: String| s@) == update_targets(self.plugins@),
    {
        let mut r: Vec<String> = Vec::new();
        let mut i: usize = 0;
        while i < self.plugins.len()
            invariant
                i <= self.plugins@.len(),
                r@.map_values(|s: String| s@) == update_targets(self.plugins@.take(i as int)),
            decreases self.plugins@.len() - i,
        {
            assert(self.plugins@.take(i + 1).drop_last() =~= self.plugins@.take(i as int));
            if self.plugins[i].enabled && self.plugins[i].has_update {
                r.push(self.plugins[i].id.clone());
            }
            assert(r@.map_values(|s: String| s@) =~= update_targets(self.plugins@.take(i + 1)));
            i += 1;
        }
        assert(self.plugins@.take(self.plugins@.len() as int) =~= self.plugins@);
        r
    }

    /// A plugin asks the island to expand.
    pub fn request_expand(&mut self)
        ensures
            final(self).expand_requested,
            final(self).collapse_requested == old(self).collapse_requested,
            final(self).plugins == old(self).plugins,
            final(self).custom_text == old(self).custom_text,
    {
        self.expand_requested = true;
    }

    /// A plugin asks the island to collapse.
    pub fn request_collapse(&mut self)
        ensures
            final(self).collapse_requested,
            final(self).expand_requested == old(self).expand_requested,
            final(self).plugins == old(self).plugins,
            final(self).custom_text == old(self).custom_text,
    {
        self.collapse_requested = true;
    }

    /// A plugin sets the text shown in the island; no text clears it.
    pub fn set_custom_text(&mut self, text: Option<String>)
        ensures
            final(self).custom_text@ == (match text {
                Some(t) => t@,
                None => Seq::<char>::empty(),
            }),
            final(self).expand_requested == old(self).expand_requested,
            final(self).collapse_requested == old(self).collapse_requested,
            final(self).plugins == old(self).plugins,
    {
        match text {
            Some(t) => {
                self.custom_text = t;
            },
            None => {
                self.custom_text = String::new();
            },
        }
    }
}

/// Law: after registering a record, the record is found under its id, and
/// the registry grows by one exactly when the id was new.
pub proof fn lemma_registered_is_found(before: Seq<PluginRecord>, after: Seq<PluginRecord>, rec: PluginRecord)
    requires
        has_id(before, rec.id@) ==> exists|i: int|
            index_of(before, rec.id@, i) && after == before.update(i, rec),
        !has_id(before, rec.id@) ==> after == before.push(rec),
    ensures
        exists|i: int| index_of(after, rec.id@, i) && after[i] == rec,
        after.len() == before.len() + (if has_id(before, rec.id@) {
            0int
        } else {
            1int
        }),
{
    if has_id(before, rec.id@) {
        let i = choose|i: int| index_of(before, rec.id@, i) && after == before.update(i, rec);
        assert(index_of(after, rec.id@, i));
    } else {
        assert(index_of(after, rec.id@, before.len() as int));
    }
}

/// Law: the plugins updated each frame are exactly the enabled ones that
/// export an update entry point; no other field of a record matters.
pub proof fn lemma_update_targets_are_enabled_updaters(plugins: Seq<PluginRecord>)
    ensures
        forall|i: int|
            0 <= i < plugins.len() && (#[trigger] plugins[i]).enabled && plugins[i].has_update
                ==> update_targets(plugins).contains(plugins[i].id@),
        forall|k: int|
            0 <= k < update_targets(plugins).len() ==> exists|i: int|
                0 <= i < plugins.len() && (#[trigger] plugins[i]).enabled && plugins[i].has_update
                    && plugins[i].id@ == #[trigger] update_targets(plugins)[k],
    decreases plugins.len(),
{
    if plugins.len() > 0 {
        let rest = plugins.drop_last();
        let p = plugins.last();
        lemma_update_targets_are_enabled_updaters(rest);
        let ts = update_targets(plugins);
        let rs = update_targets(rest);
        assert forall|i: int|
            0 <= i < plugins.len() && (#[trigger] plugins[i]).enabled && plugins[i].has_update
                implies ts.contains(plugins[i].id@) by {
            if i < plugins.len() - 1 {
                assert(rest[i] == plugins[i]);
                let j = choose|j: int| 0 <= j < rs.len() && rs[j] == rest[i].id@;
                assert(ts[j] == rs[j]);
            } else {
                assert(ts[ts.len() - 1] == p.id@);
            }
        }
        assert forall|k: int| 0 <= k < ts.len() implies exists|i: int|
            0 <= i < plugins.len() && (#[trigger] plugins[i]).enabled && plugins[i].has_update
                && plugins[i].id@ == #[trigger] ts[k] by {
            if k < rs.len() {
                assert(ts[k] == rs[k]);
                let i = choose|i: int|
                    0 <= i < rest.len() && (#[trigger] rest[i]).enabled && rest[i].has_update
                        && rest[i].id@ == #[trigger] rs[k];
                assert(plugins[i] == rest[i]);
                assert(plugins[i].enabled && plugins[i].has_update && plugins[i].id@ == ts[k]);
            } else {
                assert(p.enabled && p.has_update);
                assert(ts[k] == p.id@);
                assert(plugins[plugins.len() - 1] == p);
            }
        }
    } else {
        assert(update_targets(plugins).len() == 0);
    }
}

/// Law: switching a plugin twice gives back the registry as it was.
pub proof fn lemma_toggle_twice(
    a: Seq<PluginRecord>,
    b: Seq<PluginRecord>,
    c: Seq<PluginRecord>,
    id: Seq<char>,
)
    requires
        ids_distinct(a),
        toggled(a, b, id),
        toggled(b, c, id),
    ensures
        c == a,
{
    let i = choose|i: int|
        index_of(a, id, i) && b == a.update(i, with_enabled(a[i], !a[i].enabled));
    let j = choose|j: int|
        index_of(b, id, j) && c == b.update(j, with_enabled(b[j], !b[j].enabled));
    if j != i {
        assert(a[j].id@ == id);
        if i < j {
            assert(a[i].id@ != a[j].id@);
        } else {
            assert(a[j].id@ != a[i].id@);
        }
    }
    assert(c =~= a);
}

} // verus!
