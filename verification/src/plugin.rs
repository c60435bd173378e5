//! The plugin system: the context handed to a plugin, and the registry of
//! loaded plugins and of the campaigns that use them.  Opening dynamic
//! libraries and calling into them happens outside; the registry keeps
//! each library handle alive beside its plugin's name and version.

use vstd::prelude::*;
use crate::keyed::{StringMap, lemma_entry};
use crate::select::{lemma_filter_picks, picks, picks_at};
use crate::text::{chars_of, push_signed_decimal, signed_decimal};

verus! {

/// Errors of the plugin system.
#[derive(Debug)]
pub enum PluginError {
    LoadError(String),
    ManifestError(String),
    ApiMismatch(String),
    NotFound(String),
    AlreadyLoaded(String),
}

/// The context passed to a plugin when it is initialised: the campaign and
/// player it runs for, and optional callbacks to send events and to read
/// configuration.
pub struct PluginContext<S, G> {
    campaign_id: String,
    player_id: String,
    send_event_callback: Option<S>,
    get_config_callback: Option<G>,
}

impl<S, G> PluginContext<S, G> {
    /// The campaign id.
    pub closed spec fn campaign(&self) -> Seq<char> {
        self.campaign_id@
    }

    /// The player id.
    pub closed spec fn player(&self) -> Seq<char> {
        self.player_id@
    }

    /// The callback that sends events, if set.
    pub closed spec fn send_callback(&self) -> Option<S> {
        self.send_event_callback
    }

    /// The callback that reads configuration, if set.
    pub closed spec fn config_callback(&self) -> Option<G> {
        self.get_config_callback
    }

    /// A context with no callbacks.
    pub fn new(campaign_id: &str, player_id: &str) -> (ctx: Self)
        ensures
            ctx.campaign() == campaign_id@,
            ctx.player() == player_id@,
            ctx.send_callback() is None,
            ctx.config_callback() is None,
    {
        PluginContext {
            campaign_id: campaign_id.to_owned(),
            player_id: player_id.to_owned(),
            send_event_callback: None,
            get_config_callback: None,
        }
    }

    /// The same context with the callback that sends events set.
    pub fn with_send_event<F>(self, callback: F) -> (ctx: PluginContext<F, G>) where
        F: Fn(&[u8]) + Send + Sync + 'static,

        ensures
            ctx.campaign() == self.campaign(),
            ctx.player() == self.player(),
            ctx.send_callback() == Some(callback),
            ctx.config_callback() == self.config_callback(),
    {
        PluginContext {
            campaign_id: self.campaign_id,
            player_id: self.player_id,
            send_event_callback: Some(callback),
            get_config_callback: self.get_config_callback,
        }
    }

    /// The same context with the callback that reads configuration set.
    pub fn with_get_config<F>(self, callback: F) -> (ctx: PluginContext<S, F>) where
        F: Fn(&mut [u8]) -> usize + Send + Sync + 'static,

        ensures
            ctx.campaign() == self.campaign(),
            ctx.player() == self.player(),
            ctx.send_callback() == self.send_callback(),
            ctx.config_callback() == Some(callback),
    {
        PluginContext {
            campaign_id: self.campaign_id,
            player_id: self.player_id,
            send_event_callback: self.send_event_callback,
            get_config_callback: Some(callback),
        }
    }

    /// The campaign id.
    pub fn campaign_id(&self) -> (id: &str)
        ensures
            id@ == self.campaign(),
    {
        self.campaign_id.as_str()
    }

    /// The player id.
    pub fn player_id(&self) -> (id: &str)
        ensures
            id@ == self.player(),
    {
        self.player_id.as_str()
    }
}

impl<S: Fn(&[u8]), G> PluginContext<S, G> {
    /// Hands the data to the send-event callback, if one is set: the
    /// callback is called once, on the data as given.
    pub fn send_event(&self, data: &[u8])
        requires
            self.send_callback() matches Some(cb) ==> call_requires(cb, (data,)),
        ensures
            self.send_callback() matches Some(cb) ==> call_ensures(cb, (data,), ()),
    {
        if let Some(cb) = &self.send_event_callback {
            cb(data);
        }
    }
}

impl<S, G: Fn(&mut [u8]) -> usize> PluginContext<S, G> {
    /// Lets the configuration callback fill the buffer, and gives back the
    /// number it returns; without a callback, nothing is written and the
    /// result is 0.  With a callback, the callback is called once on the
    /// caller's buffer: what it finds there is the buffer's old content, what
    /// it leaves there is the buffer's new content, and its result is `n`.
    pub fn get_config(&self, buffer: &mut [u8]) -> (n: usize)
        requires
            self.config_callback() matches Some(cb) ==> forall|b: &mut [u8]|
                (*b)@ == old(buffer)@ ==> #[trigger] call_requires(cb, (b,)),
        ensures
            self.config_callback() is None ==> n == 0 && final(buffer)@ == old(buffer)@,
            self.config_callback() matches Some(cb) ==> exists|b: &mut [u8]|
                (*b)@ == old(buffer)@ && final(b)@ == final(buffer)@
                    && #[trigger] call_ensures(cb, (b,), n),
    {
        match &self.get_config_callback {
            Some(cb) => cb(buffer),
            None => 0,
        }
    }
}

/// The file extensions of dynamic libraries: `so`, `dll` and `dylib`.
pub open spec fn plugin_extension(ext: Seq<char>) -> bool {
    ||| ext == seq!['s', 'o']
    ||| ext == seq!['d', 'l', 'l']
    ||| ext == seq!['d', 'y', 'l', 'i', 'b']
}

/// Whether a file with this extension is a dynamic library, and so may
/// hold a plugin.
pub fn is_plugin_extension(ext: &str) -> (b: bool)
    ensures
        b == plugin_extension(ext@),
{
    let cs = chars_of(ext);
    let n = cs.len();
    let b = if n == 2 {
        cs[0] == 's' && cs[1] == 'o'
    } else if n == 3 {
        cs[0] == 'd' && cs[1] == 'l' && cs[2] == 'l'
    } else if n == 5 {
        cs[0] == 'd' && cs[1] == 'y' && cs[2] == 'l' && cs[3] == 'i' && cs[4] == 'b'
    } else {
        false
    };
    proof {
        if b {
            if n == 2 {
                assert(ext@ =~= seq!['s', 'o']);
            } else if n == 3 {
                assert(ext@ =~= seq!['d', 'l', 'l']);
            } else {
                assert(ext@ =~= seq!['d', 'y', 'l', 'i', 'b']);
            }
        } else {
            if ext@ == seq!['s', 'o'] {
                assert(ext@[0] == 's' && ext@[1] == 'o');
            }
            if ext@ == seq!['d', 'l', 'l'] {
                assert(ext@[0] == 'd' && ext@[1] == 'l' && ext@[2] == 'l');
            }
            if ext@ == seq!['d', 'y', 'l', 'i', 'b'] {
                assert(ext@[0] == 'd' && ext@[1] == 'y' && ext@[2] == 'l');
                assert(ext@[3] == 'i' && ext@[4] == 'b');
            }
        }
    }
    b
}

/// The name given to a plugin that exports none.
pub open spec fn default_plugin_name() -> Seq<char> {
    seq!['u', 'n', 'k', 'n', 'o', 'w', 'n']
}

/// The version given to a plugin that exports none.
pub open spec fn default_plugin_version() -> Seq<char> {
    seq!['0', '.', '0', '.', '0']
}

/// A plugin's name and version from what its library exports, with
/// `unknown` for a missing name and `0.0.0` for a missing version.
pub fn plugin_name_version(name: Option<String>, version: Option<String>) -> (nv: (String, String))
    ensures
        nv.0@ == (match name {
            Some(n) => n@,
            None => default_plugin_name(),
        }),
        nv.1@ == (match version {
            Some(v) => v@,
            None => default_plugin_version(),
        }),
{
    let n = match name {
        Some(n) => n,
        None => {
            let d = "unknown".to_string();
            proof {
                reveal_strlit("unknown");
            }
            assert(d@ =~= default_plugin_name());
            d
        },
    };
    let v = match version {
        Some(v) => v,
        None => {
            let d = "0.0.0".to_string();
            proof {
                reveal_strlit("0.0.0");
            }
            assert(d@ =~= default_plugin_version());
            d
        },
    };
    (n, v)
}

/// A plugin that is loaded: the handle of its library, kept alive while the
/// plugin is registered, and its name and version.
pub struct LoadedPlugin<L> {
    _lib: L,
    pub name: String,
    pub version: String,
}

impl<L> LoadedPlugin<L> {
    /// The plugin's name.
    pub closed spec fn name_text(&self) -> Seq<char> {
        self.name@
    }

    /// The plugin's version.
    pub closed spec fn version_text(&self) -> Seq<char> {
        self.version@
    }

    /// A loaded plugin.
    pub fn new(lib: L, name: String, version: String) -> (p: Self)
        ensures
            p.name_text() == name@,
            p.version_text() == version@,
    {
        LoadedPlugin { _lib: lib, name, version }
    }
}

/// The names in a list of strings.
pub open spec fn names(v: Seq<String>) -> Seq<Seq<char>> {
    v.map_values(|s: String| s@)
}

/// A list of names without one name, the others in order.
pub open spec fn without(s: Seq<Seq<char>>, n: Seq<char>) -> Seq<Seq<char>>
    decreases s.len(),
{
    if s.len() == 0 {
        s
    } else if s.last() == n {
        without(s.drop_last(), n)
    } else {
        without(s.drop_last(), n).push(s.last())
    }
}

/// The names left in a list after removing one are in the list, and are
/// not the removed one.
pub proof fn lemma_without_members(s: Seq<Seq<char>>, n: Seq<char>, x: Seq<char>)
    ensures
        without(s, n).contains(x) ==> s.contains(x) && x != n,
    decreases s.len(),
{
    if s.len() > 0 {
        lemma_without_members(s.drop_last(), n, x);
        if without(s, n).contains(x) {
            if s.last() != n && x == s.last() {
                assert(s[s.len() - 1] == x);
            } else {
                let k = choose|k: int| 0 <= k < without(s.drop_last(), n).len()
                    && without(s.drop_last(), n)[k] == x;
                if s.last() != n {
                    assert(without(s, n)[k] == x);
                }
                assert(without(s.drop_last(), n).contains(x));
                let j = choose|j: int| 0 <= j < s.drop_last().len() && s.drop_last()[j] == x;
                assert(s[j] == x);
            }
        }
    }
}

/// A copy of a list of strings.
fn copy_strings(v: &Vec<String>) -> (r: Vec<String>)
    ensures
        r@ == v@,
{
    let mut r: Vec<String> = Vec::new();
    let n = v.len();
    for i in 0..n
        invariant
            n == v@.len(),
            r@ == v@.take(i as int),
    {
        r.push(v[i].clone());
        assert(r@ =~= v@.take(i + 1));
    }
    assert(r@ =~= v@);
    r
}

/// Whether a name differs from a given one.
pub open spec fn other_than(n: Seq<char>) -> spec_fn(Seq<char>) -> bool {
    |x: Seq<char>| x != n
}

proof fn lemma_without_is_filter(s: Seq<Seq<char>>, n: Seq<char>)
    ensures
        without(s, n) == s.filter(other_than(n)),
    decreases s.len(),
{
    reveal(Seq::filter);
    if s.len() > 0 {
        lemma_without_is_filter(s.drop_last(), n);
    }
}

/// Removing a name from a list keeps exactly the other names, in order:
/// each name kept differs from the removed one and is the list's name at a
/// position, the positions increase, and every name of the list that
/// differs from the removed one is among them.
pub proof fn lemma_without_picks(s: Seq<Seq<char>>, n: Seq<char>)
    ensures
        picks(without(s, n), s, other_than(n)),
        !without(s, n).contains(n),
{
    lemma_without_is_filter(s, n);
    lemma_filter_picks(s, other_than(n));
    let out = without(s, n);
    let idx = choose|idx: Seq<int>| #[trigger] picks_at(out, s, other_than(n), idx);
    if out.contains(n) {
        let i = choose|i: int| 0 <= i < out.len() && out[i] == n;
        assert(0 <= idx[i] < s.len());
    }
}

/// A list of strings without the ones equal to a name, the others in order.
fn strings_without(v: &Vec<String>, name: &str) -> (r: Vec<String>)
    ensures
        names(r@) == without(names(v@), name@),
        picks(names(r@), names(v@), other_than(name@)),
{
    proof {
        lemma_without_picks(names(v@), name@);
    }
    let unwanted: String = name.to_owned();
    let mut r: Vec<String> = Vec::new();
    let n = v.len();
    for i in 0..n
        invariant
            n == v@.len(),
            unwanted@ == name@,
            names(r@) == without(names(v@.take(i as int)), name@),
    {
        let ghost before = v@.take(i as int);
        let ghost after = v@.take(i + 1);
        assert(names(after).drop_last() =~= names(before));
        if v[i] != unwanted {
            r.push(v[i].clone());
            assert(names(r@) =~= without(names(after), name@));
        } else {
            assert(names(r@) =~= without(names(after), name@));
        }
    }
    assert(v@.take(n as int) =~= v@);
    r
}

/// The text of the error for a plugin whose initialisation failed.
pub open spec fn init_failed_text(code: i32) -> Seq<char> {
    seq!['I', 'n', 'i', 't', ' ', 'f', 'a', 'i', 'l', 'e', 'd', ' ', 'w', 'i', 't', 'h', ' ', 'c', 'o', 'd', 'e', ' ']
        + signed_decimal(code as int)
}

/// Whether a plugin's initialisation succeeded: its `plugin_init` returns 0
/// on success; any other code is a `LoadError` naming it.
pub fn check_init_result(code: i32) -> (r: Result<(), PluginError>)
    ensures
        code == 0 ==> r is Ok,
        code != 0 ==> (r matches Err(PluginError::LoadError(text)) && text@ == init_failed_text(code)),
{
    if code == 0 {
        return Ok(());
    }
    let mut text = "Init failed with code ".to_string();
    proof {
        reveal_strlit("Init failed with code ");
    }
    push_signed_decimal(&mut text, code as i64);
    assert(text@ =~= init_failed_text(code));
    Err(PluginError::LoadError(text))
}

/// The registry of loaded plugins and of the plugins each campaign uses.
pub struct PluginManager<L> {
    plugins: StringMap<LoadedPlugin<L>>,
    campaign_plugins: StringMap<Vec<String>>,
}

impl<L> PluginManager<L> {
    /// Loaded plugins by name.
    pub closed spec fn loaded(&self) -> Map<Seq<char>, LoadedPlugin<L>> {
        self.plugins@
    }

    /// The plugins associated with each campaign, in order of association.
    pub closed spec fn campaigns(&self) -> Map<Seq<char>, Seq<Seq<char>>> {
        self.campaign_plugins@.map_values(|v: Vec<String>| names(v@))
    }

    /// The registry is consistent: each plugin is registered under its own
    /// name, and campaigns are associated only with loaded plugins.
    pub closed spec fn wf(&self) -> bool {
        &&& self.plugins.wf()
        &&& self.campaign_plugins.wf()
        &&& forall|k: Seq<char>| #[trigger] self.plugins@.contains_key(k) ==> self.plugins@[k].name_text() == k
        &&& forall|c: Seq<char>, n: Seq<char>|
            #[trigger] self.campaigns().contains_key(c) && #[trigger] self.campaigns()[c].contains(n)
                ==> self.plugins@.contains_key(n)
    }

    /// An empty registry.
    pub fn new() -> (m: Self)
        ensures
            m.wf(),
            m.loaded() == Map::<Seq<char>, LoadedPlugin<L>>::empty(),
            m.campaigns() == Map::<Seq<char>, Seq<Seq<char>>>::empty(),
    {
        let m = PluginManager { plugins: StringMap::new(), campaign_plugins: StringMap::new() };
        assert(m.campaigns() =~= Map::<Seq<char>, Seq<Seq<char>>>::empty());
        m
    }

    /// Whether a plugin of this name may be loaded: refused with
    /// `AlreadyLoaded` where one is loaded already.
    pub fn check_not_loaded(&self, name: &str) -> (r: Result<(), PluginError>)
        requires
            self.wf(),
        ensures
            self.loaded().contains_key(name@) ==> (r matches Err(PluginError::AlreadyLoaded(n)) && n@
                == name@),
            !self.loaded().contains_key(name@) ==> r is Ok,
    {
        match self.plugins.find(name) {
            Some(_) => Err(PluginError::AlreadyLoaded(name.to_owned())),
            None => Ok(()),
        }
    }

    /// Registers a plugin whose library was opened and whose initialisation
    /// returned `init_result`: refused with `AlreadyLoaded` where a plugin
    /// of that name is loaded, with `LoadError` where the initialisation
    /// failed (a non-zero result), and otherwise registered under its name,
    /// which is returned.
    pub fn finish_load(&mut self, lib: L, name: String, version: String, init_result: i32) -> (r: Result<String, PluginError>)
        requires
            old(self).wf(),
        ensures
            final(self).wf(),
            final(self).campaigns() == old(self).campaigns(),
            old(self).loaded().contains_key(name@) ==> (r matches Err(PluginError::AlreadyLoaded(n))
                && n@ == name@) && final(self).loaded() == old(self).loaded(),
            !old(self).loaded().contains_key(name@) && init_result != 0 ==> (r matches Err(
                PluginError::LoadError(text),
            ) && text@ == init_failed_text(init_result)) && final(self).loaded() == old(self).loaded(),
            !old(self).loaded().contains_key(name@) && init_result == 0 ==> (r matches Ok(n) && n
                == name) && final(self).loaded().dom() == old(self).loaded().dom().insert(name@)
                && final(self).loaded()[name@].name_text() == name@ && final(self).loaded()[name@].version_text()
                == version@ && forall|k: Seq<char>|
                #[trigger] old(self).loaded().contains_key(k) ==> final(self).loaded()[k]
                    == old(self).loaded()[k],
    {
        if self.plugins.find(name.as_str()).is_some() {
            return Err(PluginError::AlreadyLoaded(name));
        }
        if init_result != 0 {
            return match check_init_result(init_result) {
                Ok(()) => Ok(name),
                Err(e) => Err(e),
            };
        }
        let key = name.clone();
        let plugin = LoadedPlugin::new(lib, name.clone(), version);
        let ghost before = self.campaigns();
        self.plugins.push_new(key, plugin);
        assert(self.campaigns() =~= before);
        Ok(name)
    }

    /// Unloads a plugin and removes it from every campaign's list; refused
    /// with `NotFound` where no plugin of that name is loaded.
    pub fn unload_plugin(&mut self, name: &str) -> (r: Result<(), PluginError>)
        requires
            old(self).wf(),
        ensures
            final(self).wf(),
            !old(self).loaded().contains_key(name@) ==> (r matches Err(PluginError::NotFound(n)) && n@
                == name@) && final(self).loaded() == old(self).loaded() && final(self).campaigns()
                == old(self).campaigns(),
            old(self).loaded().contains_key(name@) ==> r is Ok && final(self).loaded() == old(
                self,
            ).loaded().remove(name@) && final(self).campaigns().dom() == old(self).campaigns().dom()
                && forall|c: Seq<char>| #[trigger]
                    old(self).campaigns().contains_key(c) ==> final(self).campaigns()[c] == without(
                        old(self).campaigns()[c],
                        name@,
                    ) && picks(final(self).campaigns()[c], old(self).campaigns()[c], other_than(name@)),
            forall|c: Seq<char>| #[trigger]
                final(self).campaigns().contains_key(c) ==> !final(self).campaigns()[c].contains(name@),
    {
        let removed = self.plugins.remove(name);
        if removed.is_none() {
            assert(self.plugins@ =~= old(self).plugins@);
            assert(self.plugins.wf());
            assert(self.campaign_plugins.wf());
            assert(self.campaigns() == old(self).campaigns());
            assert(self.wf());
            return Err(PluginError::NotFound(name.to_owned()));
        }
        let ghost old_entries = self.campaign_plugins.entries();
        let ghost old_campaigns = old(self).campaigns();
        let n = self.campaign_plugins.len();
        for i in 0..n
            invariant
                n == old_entries.len(),
                self.campaign_plugins.wf(),
                self.campaign_plugins.entries().len() == n,
                filtered_upto(self.campaign_plugins.entries(), old_entries, i as int, name@),
                self.plugins.wf(),
                self.plugins@ == old(self).plugins@.remove(name@),
                old(self).wf(),
                old(self).plugins@.contains_key(name@),
                old_entries == old(self).campaign_plugins.entries(),
                old_campaigns == old(self).campaigns(),
        {
            let ghost prev = self.campaign_plugins.entries();
            assert(filtered_at(prev, old_entries, i as int, i as int, name@));
            let filtered = strings_without(self.campaign_plugins.value_at(i), name);
            assert(prev[i as int] == old_entries[i as int]);
            self.campaign_plugins.set_value_at(i, filtered);
            proof {
                let cur = self.campaign_plugins.entries();
                assert forall|j: int| 0 <= j < n implies #[trigger] filtered_at(cur, old_entries, j, i + 1, name@) by {
                    assert(filtered_at(prev, old_entries, j, i as int, name@));
                    if j != i {
                        assert(cur[j] == prev[j]);
                    }
                }
            }
        }
        proof {
            let s = self.campaign_plugins.entries();
            assert forall|j: int| 0 <= j < s.len() implies #[trigger] s[j].0 == old_entries[j].0 by {
                assert(filtered_at(s, old_entries, j, n as int, name@));
            }
            assert(keys_same(s, old_entries));
            assert forall|c: Seq<char>| #[trigger] self.campaigns().contains_key(c) == old_campaigns.contains_key(c) by {
                if self.campaigns().contains_key(c) {
                    let a = choose|a: int| 0 <= a < s.len() && #[trigger] s[a].0@ == c;
                    assert(old_entries[a].0@ == c);
                }
                if old_campaigns.contains_key(c) {
                    let a = choose|a: int| 0 <= a < old_entries.len() && #[trigger] old_entries[a].0@ == c;
                    assert(s[a].0@ == c);
                }
            }
            assert forall|c: Seq<char>| #[trigger] old_campaigns.contains_key(c) implies self.campaigns()[c]
                == without(old_campaigns[c], name@) by {
                let a = choose|a: int| 0 <= a < old_entries.len() && #[trigger] old_entries[a].0@ == c;
                lemma_entry(old_entries, a);
                assert(filtered_at(s, old_entries, a, n as int, name@));
                assert(s[a].0@ == c);
                lemma_entry(s, a);
            }
            assert forall|c: Seq<char>| #[trigger] old_campaigns.contains_key(c) implies picks(
                self.campaigns()[c],
                old_campaigns[c],
                other_than(name@),
            ) by {
                lemma_without_picks(old_campaigns[c], name@);
            }
            assert forall|c: Seq<char>, m: Seq<char>|
                #[trigger] self.campaigns().contains_key(c) && #[trigger] self.campaigns()[c].contains(m)
                    implies self.plugins@.contains_key(m) by {
                assert(old_campaigns.contains_key(c));
                lemma_without_members(old_campaigns[c], name@, m);
                assert(old_campaigns[c].contains(m));
                assert(old(self).plugins@.contains_key(m));
                assert(m != name@);
            }
            assert forall|c: Seq<char>| #[trigger] self.campaigns().contains_key(c) implies !self.campaigns()[c].contains(name@) by {
                if self.campaigns()[c].contains(name@) {
                    assert(self.plugins@.contains_key(name@));
                }
            }
        }
        Ok(())
    }
}

impl<L> PluginManager<L> {
    /// The loaded plugins' names and versions, each plugin once.
    #[verifier::spinoff_prover]
    #[verifier::rlimit(40)]
    pub fn list_plugins(&self) -> (list: Vec<(String, String)>)
        requires
            self.wf(),
        ensures
            forall|i: int|
                0 <= i < list@.len() ==> #[trigger] self.loaded().contains_key(list@[i].0@)
                    && self.loaded()[list@[i].0@].version_text() == list@[i].1@,
            forall|i: int, j: int|
                0 <= i < list@.len() && 0 <= j < list@.len() && i != j ==> #[trigger] list@[i].0@
                    != #[trigger] list@[j].0@,
            forall|k: Seq<char>|
                self.loaded().contains_key(k) ==> exists|i: int|
                    0 <= i < list@.len() && #[trigger] list@[i].0@ == k,
    {
        let mut list: Vec<(String, String)> = Vec::new();
        let n = self.plugins.len();
        let ghost s = self.plugins.entries();
        for i in 0..n
            invariant
                n == s.len(),
                s == self.plugins.entries(),
                self.wf(),
                list@.len() == i,
                forall|j: int| 0 <= j < i ==> #[trigger] listed_at(list@, s, j),
        {
            let name = self.plugins.key_at(i).clone();
            let version = self.plugins.value_at(i).version.clone();
            let ghost before = list@;
            list.push((name, version));
            proof {
                assert forall|j: int| 0 <= j < i + 1 implies #[trigger] listed_at(list@, s, j) by {
                    if j < i {
                        assert(list@[j] == before[j]);
                        assert(listed_at(before, s, j));
                    }
                }
            }
        }
        proof {
            assert forall|i: int| 0 <= i < list@.len() implies #[trigger] self.loaded().contains_key(list@[i].0@)
                && self.loaded()[list@[i].0@].version_text() == list@[i].1@ by {
                assert(listed_at(list@, s, i));
                lemma_entry(s, i);
            }
            assert forall|i: int, j: int|
                0 <= i < list@.len() && 0 <= j < list@.len() && i != j implies #[trigger] list@[i].0@
                    != #[trigger] list@[j].0@ by {
                assert(listed_at(list@, s, i));
                assert(listed_at(list@, s, j));
                assert(s[i].0@ != s[j].0@);
            }
            assert forall|k: Seq<char>| self.loaded().contains_key(k) implies exists|i: int|
                0 <= i < list@.len() && #[trigger] list@[i].0@ == k by {
                let a = choose|a: int| 0 <= a < s.len() && #[trigger] s[a].0@ == k;
                assert(listed_at(list@, s, a));
                assert(list@[a].0@ == k);
            }
        }
        list
    }
}

/// The plugins associated with a campaign (none for an unknown campaign).
pub open spec fn campaign_list(m: Map<Seq<char>, Seq<Seq<char>>>, c: Seq<char>) -> Seq<Seq<char>> {
    if m.contains_key(c) {
        m[c]
    } else {
        Seq::empty()
    }
}

impl<L> PluginManager<L> {
    /// Associates a loaded plugin with a campaign, after the plugins already
    /// associated with it; refused with `NotFound` where no plugin of that
    /// name is loaded.
    pub fn associate_with_campaign(&mut self, campaign_id: &str, plugin_name: &str) -> (r: Result<(), PluginError>)
        requires
            old(self).wf(),
        ensures
            final(self).wf(),
            final(self).loaded() == old(self).loaded(),
            !old(self).loaded().contains_key(plugin_name@) ==> (r matches Err(PluginError::NotFound(n))
                && n@ == plugin_name@) && final(self).campaigns() == old(self).campaigns(),
            old(self).loaded().contains_key(plugin_name@) ==> r is Ok && final(self).campaigns() == old(
                self,
            ).campaigns().insert(
                campaign_id@,
                campaign_list(old(self).campaigns(), campaign_id@).push(plugin_name@),
            ),
    {
        if self.plugins.find(plugin_name).is_none() {
            return Err(PluginError::NotFound(plugin_name.to_owned()));
        }
        let ghost before = self.campaign_plugins@;
        let mut list = match self.campaign_plugins.remove(campaign_id) {
            Some(l) => l,
            None => Vec::new(),
        };
        let ghost prior = names(list@);
        assert(prior =~= campaign_list(old(self).campaigns(), campaign_id@));
        list.push(plugin_name.to_owned());
        assert(names(list@) =~= prior.push(plugin_name@));
        self.campaign_plugins.insert(campaign_id.to_owned(), list);
        proof {
            assert(self.campaign_plugins@ =~= before.insert(campaign_id@, list));
            assert(self.campaigns() =~= old(self).campaigns().insert(
                campaign_id@,
                campaign_list(old(self).campaigns(), campaign_id@).push(plugin_name@),
            ));
            assert forall|c: Seq<char>, m: Seq<char>|
                #[trigger] self.campaigns().contains_key(c) && #[trigger] self.campaigns()[c].contains(m)
                    implies self.plugins@.contains_key(m) by {
                if c == campaign_id@ {
                    if m != plugin_name@ {
                        let k = choose|k: int| 0 <= k < self.campaigns()[c].len() && self.campaigns()[c][k] == m;
                        assert(prior[k] == m);
                        assert(old(self).campaigns()[c].contains(m));
                    }
                } else {
                    assert(old(self).campaigns()[c] == self.campaigns()[c]);
                }
            }
        }
        Ok(())
    }

    /// The plugins associated with a campaign, in order of association.
    pub fn get_campaign_plugins(&self, campaign_id: &str) -> (list: Vec<String>)
        requires
            self.wf(),
        ensures
            names(list@) == campaign_list(self.campaigns(), campaign_id@),
    {
        match self.campaign_plugins.get(campaign_id) {
            Some(l) => copy_strings(l),
            None => {
                let v: Vec<String> = Vec::new();
                assert(names(v@) =~= Seq::<Seq<char>>::empty());
                v
            },
        }
    }
}

/// The listed name and version at position `j` are those of the entry there.
pub open spec fn listed_at<L>(list: Seq<(String, String)>, s: Seq<(String, LoadedPlugin<L>)>, j: int) -> bool {
    list[j].0@ == s[j].0@ && list[j].1@ == s[j].1.version_text()
}

/// The entry at position `j` is filtered (before position `i`) or unchanged
/// (from position `i` on).
pub open spec fn filtered_at(s: Seq<(String, Vec<String>)>, t: Seq<(String, Vec<String>)>, j: int, i: int, name: Seq<char>) -> bool {
    if j < i {
        s[j].0 == t[j].0 && names(s[j].1@) == without(names(t[j].1@), name)
    } else {
        s[j] == t[j]
    }
}

/// Every entry is filtered before position `i` and unchanged from it on.
pub open spec fn filtered_upto(s: Seq<(String, Vec<String>)>, t: Seq<(String, Vec<String>)>, i: int, name: Seq<char>) -> bool {
    forall|j: int| 0 <= j < t.len() ==> #[trigger] filtered_at(s, t, j, i, name)
}

/// Two lists of entries have the same keys at the same positions.
pub open spec fn keys_same<V>(s: Seq<(String, V)>, t: Seq<(String, V)>) -> bool {
    s.len() == t.len() && forall|j: int| 0 <= j < s.len() ==> #[trigger] s[j].0 == t[j].0
}

} // verus!

verus! {

/// A plugin that was associated with a campaign is the last of the
/// campaign's plugins.
pub proof fn lemma_associated_plugin_listed<L>(
    before: PluginManager<L>,
    after: PluginManager<L>,
    campaign_id: Seq<char>,
    plugin_name: Seq<char>,
)
    requires
        after.campaigns() == before.campaigns().insert(
            campaign_id,
            campaign_list(before.campaigns(), campaign_id).push(plugin_name),
        ),
    ensures
        campaign_list(after.campaigns(), campaign_id).last() == plugin_name,
        campaign_list(after.campaigns(), campaign_id).len() == campaign_list(before.campaigns(), campaign_id).len() + 1,
{
}

} // verus!

verus! {

impl<L> Default for PluginManager<L> {
    /// An empty registry.
    fn default() -> (m: Self)
        ensures
            m.wf(),
            m.loaded() == Map::<Seq<char>, LoadedPlugin<L>>::empty(),
            m.campaigns() == Map::<Seq<char>, Seq<Seq<char>>>::empty(),
    {
        Self::new()
    }
}

} // verus!
