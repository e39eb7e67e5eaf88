//! The three action kinds and their execution semantics, and the dispatch
//! engine that binds a loaded rule set to the live event stream.

use vstd::prelude::*;
use vstd::string::*;
use crate::config::{
    CapslockForgetFeature, ModifierKey, ShortcutConfigDocError, ShortcutDocModel,
    ShortcutKeyConfig, ShortcutKeyConfigFileFormatError, config_matches, doc_pairs, entry_spec,
    err_matches, parse_shortcut_key_text, parse_shortcut_spec, replace_text_config,
    result_matches, shortcut_doc_model, shortcut_key_config,
};
use crate::ini_doc::ini_sections_of;
use crate::json_doc::JsonValue;
use crate::keys::Key;
use crate::replace::{ReplacementMap, build_from, collisions_from, spec_get};

verus! {

// ---------------------------------------------------------------------------
// Context text-substitution
// ---------------------------------------------------------------------------

/// The context-sensitive text-substitution action. Stateless: at trigger
/// time it consults the replacement map against the currently selected text.
#[derive(Debug)]
pub struct MultifunctionalAction;

impl MultifunctionalAction {
    /// The replacement for the currently selected text, where the map has
    /// one. Freezing the listener around the selection read and injecting
    /// the returned text are the caller's part.
    pub fn replace_text(&self, map: &ReplacementMap, selection: &str) -> (r: Option<String>)
        ensures
            match r {
                Some(t) => spec_get(map@, selection@) == Some(t@),
                None => spec_get(map@, selection@) is None,
            },
    {
        match map.get(selection) {
            Some(v) => Some(String::from_str(v.as_str())),
            None => None,
        }
    }
}

// ---------------------------------------------------------------------------
// Key-sequence macros
// ---------------------------------------------------------------------------

/// One step of a key-sequence macro: the key, the modifiers held around it,
/// and the pause after it.
#[derive(Debug, Clone, Copy, PartialEq, Eq, Structural)]
pub struct InputKey {
    pub key: Key,
    pub modifier_key: ModifierKey,
    pub delay: u64,
}

impl InputKey {
    pub fn with(key: Key, modifier_key: ModifierKey) -> (r: Self)
        ensures
            r == (InputKey { key, modifier_key, delay: 0u64 }),
    {
        Self { key, modifier_key, delay: 0 }
    }

    /// Parse a step from full shortcut-key text, so a step may itself carry
    /// modifiers.
    pub fn with_str(s: &str) -> (r: Result<Self, ShortcutKeyConfigFileFormatError>)
        ensures
            match r {
                Ok(k) => parse_shortcut_spec(s@) == Ok::<(Key, ModifierKey), Seq<char>>(
                    (k.key, k.modifier_key),
                ) && k.delay == 0,
                Err(e) => e matches ShortcutKeyConfigFileFormatError::KeyError(t)
                    && parse_shortcut_spec(s@) == Err::<(Key, ModifierKey), Seq<char>>(t@),
            },
    {
        match parse_shortcut_key_text(s) {
            Ok(p) => Ok(Self::with(p.0, p.1)),
            Err(err) => Err(err),
        }
    }
}

/// One synthetic input event of a replayed macro.
#[derive(Debug, Clone, Copy, PartialEq, Eq, Structural)]
pub enum SimEvent {
    Press(Key),
    Release(Key),
    Sleep(u64),
}

/// The events one macro step expands to: presses of the step's active
/// modifiers, press and release of the key, releases of the modifiers, and
/// the step's pause.
pub open spec fn step_events(k: InputKey) -> Seq<SimEvent> {
    (if k.modifier_key.ctrl {
        seq![SimEvent::Press(Key::ControlLeft)]
    } else {
        Seq::<SimEvent>::empty()
    }) + (if k.modifier_key.shift {
        seq![SimEvent::Press(Key::ShiftLeft)]
    } else {
        Seq::<SimEvent>::empty()
    }) + (if k.modifier_key.alt {
        seq![SimEvent::Press(Key::Alt)]
    } else {
        Seq::<SimEvent>::empty()
    }) + (if k.modifier_key.meta {
        seq![SimEvent::Press(Key::MetaLeft)]
    } else {
        Seq::<SimEvent>::empty()
    }) + seq![SimEvent::Press(k.key), SimEvent::Release(k.key)] + (if k.modifier_key.ctrl {
        seq![SimEvent::Release(Key::ControlLeft)]
    } else {
        Seq::<SimEvent>::empty()
    }) + (if k.modifier_key.shift {
        seq![SimEvent::Release(Key::ShiftLeft)]
    } else {
        Seq::<SimEvent>::empty()
    }) + (if k.modifier_key.alt {
        seq![SimEvent::Release(Key::Alt)]
    } else {
        Seq::<SimEvent>::empty()
    }) + (if k.modifier_key.meta {
        seq![SimEvent::Release(Key::MetaLeft)]
    } else {
        Seq::<SimEvent>::empty()
    }) + seq![SimEvent::Sleep(k.delay)]
}

/// The whole replay of a macro, step by step in order.
pub open spec fn expand_steps(steps: Seq<InputKey>, i: int) -> Seq<SimEvent>
    decreases steps.len() - i,
{
    if i < 0 || i >= steps.len() {
        Seq::<SimEvent>::empty()
    } else {
        step_events(steps[i]) + expand_steps(steps, i + 1)
    }
}

/// A key-sequence macro: stateless, replayed in full each trigger.
#[derive(Debug)]
pub struct InputKeyAction {
    pub input_key_list: Vec<InputKey>,
}

impl InputKeyAction {
    pub fn new(input_key_list: Vec<InputKey>) -> (r: Self)
        ensures
            r.input_key_list == input_key_list,
    {
        Self { input_key_list }
    }

    /// The synthetic event sequence one trigger replays. Performing these
    /// events (and the re-entrancy guard around them) is the caller's part:
    /// they must go to the input stream off the hook thread.
    #[verifier::loop_isolation(false)]
    #[verifier::rlimit(50)]
    pub fn execute(&self) -> (r: Vec<SimEvent>)
        ensures
            r@ == expand_steps(self.input_key_list@, 0),
    {
        let list = &self.input_key_list;
        let mut r: Vec<SimEvent> = Vec::new();
        let mut i: usize = 0;
        proof {
            assert(r@ + expand_steps(list@, 0) =~= expand_steps(list@, 0));
        }
        while i < list.len()
            invariant
                i <= list@.len(),
                r@ + expand_steps(list@, i as int) == expand_steps(list@, 0),
            decreases list@.len() - i,
        {
            let ghost r0 = r@;
            let step = list[i];
            if step.modifier_key.ctrl {
                r.push(SimEvent::Press(Key::ControlLeft));
            }
            if step.modifier_key.shift {
                r.push(SimEvent::Press(Key::ShiftLeft));
            }
            if step.modifier_key.alt {
                r.push(SimEvent::Press(Key::Alt));
            }
            if step.modifier_key.meta {
                r.push(SimEvent::Press(Key::MetaLeft));
            }
            r.push(SimEvent::Press(step.key));
            r.push(SimEvent::Release(step.key));
            if step.modifier_key.ctrl {
                r.push(SimEvent::Release(Key::ControlLeft));
            }
            if step.modifier_key.shift {
                r.push(SimEvent::Release(Key::ShiftLeft));
            }
            if step.modifier_key.alt {
                r.push(SimEvent::Release(Key::Alt));
            }
            if step.modifier_key.meta {
                r.push(SimEvent::Release(Key::MetaLeft));
            }
            r.push(SimEvent::Sleep(step.delay));
            proof {
                assert(r@ =~= r0 + step_events(list@[i as int]));
                assert(r@ + expand_steps(list@, i + 1) =~= r0 + expand_steps(list@, i as int));
            }
            i = i + 1;
        }
        proof {
            assert(r@ + expand_steps(list@, list@.len() as int) =~= r@);
        }
        r
    }
}

// ---------------------------------------------------------------------------
// Rotating text
// ---------------------------------------------------------------------------

/// A rotating-text action: an ordered list of snippets and a cursor that
/// cycles through them.
#[derive(Debug)]
pub struct InputTextAction {
    pub text_list: Vec<String>,
    pub index: usize,
}

impl InputTextAction {
    /// Well-formed: at least one snippet, cursor in range. Constructed so by
    /// the loader, which rejects empty snippet lists.
    pub open spec fn wf(&self) -> bool {
        self.text_list@.len() > 0 && self.index < self.text_list@.len()
    }

    pub fn new(text_list: Vec<String>) -> (r: Self)
        ensures
            r.text_list == text_list,
            r.index == 0,
    {
        Self { text_list, index: 0 }
    }

    /// One trigger: yields the snippet at the cursor and advances the cursor
    /// cyclically. Injecting the returned text is the caller's part: it must
    /// go to the input stream off the hook thread.
    pub fn input_next_text(&mut self) -> (r: String)
        requires
            old(self).wf(),
        ensures
            final(self).wf(),
            final(self).text_list == old(self).text_list,
            r@ == old(self).text_list.deep_view()[old(self).index as int],
            final(self).index == if old(self).index + 1 == old(self).text_list@.len() {
                0int
            } else {
                old(self).index + 1
            },
    {
        let text = String::from_str(self.text_list[self.index].as_str());
        if self.index >= self.text_list.len() - 1 {
            self.index = 0;
        } else {
            self.index = self.index + 1;
        }
        text
    }
}

// ---------------------------------------------------------------------------
// Load errors
// ---------------------------------------------------------------------------

/// Why a (re)load failed. Each failure discards the whole pending rule set.
#[derive(Debug, Clone, PartialEq, Eq)]
pub enum LoadError {
    /// The shortcut-rule document's markup does not scan.
    ScanError(String),
    /// The shortcut-rule document holds no configuration.
    FileNotFound,
    /// The embedded rule payload does not decode as JSON.
    JsonError(String),
    /// A rule entry is semantically invalid.
    ConfigError(ShortcutKeyConfigFileFormatError),
    /// The replacement-pairs document is missing or malformed.
    ReplaceTextConfigError(String),
}

// ---------------------------------------------------------------------------
// The dispatch engine
// ---------------------------------------------------------------------------

/// What dispatch asks its caller to perform, away from the hook thread.
#[derive(Debug)]
pub enum ActionRequest {
    /// Inject this text.
    InjectText(String),
    /// Replay these synthetic events, then clear the re-entrancy guard.
    Simulate(Vec<SimEvent>),
    /// Read the current selection and substitute its replacement.
    ReplaceSelection,
}

/// A rule is well-formed where its rotating-text action is.
pub open spec fn rule_wf(c: ShortcutKeyConfig) -> bool {
    match c.feature {
        CapslockForgetFeature::InputText(a) => a.wf(),
        _ => true,
    }
}

/// Whether a rule's binding matches an observed event exactly.
pub open spec fn rule_matches(
    c: ShortcutKeyConfig,
    key: Key,
    ctrl: bool,
    shift: bool,
    alt: bool,
    meta: bool,
) -> bool {
    c.key == key && c.modifier_key == (ModifierKey { ctrl, shift, alt, meta })
}

/// The first rule from position i on whose binding matches the event.
pub open spec fn first_match(
    rules: Seq<ShortcutKeyConfig>,
    key: Key,
    ctrl: bool,
    shift: bool,
    alt: bool,
    meta: bool,
    i: int,
) -> Option<int>
    decreases rules.len() - i,
{
    if i < 0 || i >= rules.len() {
        None
    } else if rule_matches(rules[i], key, ctrl, shift, alt, meta) {
        Some(i)
    } else {
        first_match(rules, key, ctrl, shift, alt, meta, i + 1)
    }
}

/// The first rule entry whose parse failed.
pub open spec fn first_entry_err(items: Seq<JsonValue>, i: int) -> Option<int>
    decreases items.len() - i,
{
    if i < 0 || i >= items.len() {
        None
    } else if entry_spec(items[i]) is Err {
        Some(i)
    } else {
        first_entry_err(items, i + 1)
    }
}

proof fn lemma_first_entry_err_prefix(items: Seq<JsonValue>, i: int)
    requires
        0 <= i <= items.len(),
        forall|j: int| 0 <= j < i ==> entry_spec(#[trigger] items[j]) is Ok,
    ensures
        first_entry_err(items, 0) == first_entry_err(items, i),
    decreases i,
{
    if i > 0 {
        lemma_first_entry_err_prefix(items, i - 1);
    }
}

/// What the triggered action yields and how the rule's state advances, for
/// the rule at index i of the pre-state.
pub open spec fn trigger_outcome(
    pre: Engine,
    post: Engine,
    i: int,
    r: Option<ActionRequest>,
) -> bool {
    match pre.rules@[i].feature {
        CapslockForgetFeature::InputText(a) => {
            &&& (r matches Some(ActionRequest::InjectText(t)) && t@ == a.text_list.deep_view()[a.index as int])
            &&& post.lock == pre.lock
            &&& post.rules@[i].key == pre.rules@[i].key
            &&& post.rules@[i].modifier_key == pre.rules@[i].modifier_key
            &&& (post.rules@[i].feature matches CapslockForgetFeature::InputText(a2)
                && a2.text_list == a.text_list && a2.index == (if a.index + 1
                == a.text_list@.len() {
                0int
            } else {
                a.index + 1
            }))
        },
        CapslockForgetFeature::Input(a) => {
            &&& (r matches Some(ActionRequest::Simulate(evs)) && evs@ == expand_steps(
                a.input_key_list@,
                0,
            ))
            &&& post.lock
            &&& post.rules@[i] == pre.rules@[i]
        },
        CapslockForgetFeature::Multifunctional(_) => {
            &&& (r matches Some(ActionRequest::ReplaceSelection))
            &&& post.lock == pre.lock
            &&& post.rules@[i] == pre.rules@[i]
        },
    }
}

/// What one unguarded dispatch does: nothing without a match, and exactly
/// the first matching rule's trigger with one.
pub open spec fn dispatch_outcome(
    pre: Engine,
    post: Engine,
    key: Key,
    ctrl: bool,
    shift: bool,
    alt: bool,
    meta: bool,
    r: Option<ActionRequest>,
) -> bool {
    match first_match(pre.rules@, key, ctrl, shift, alt, meta, 0) {
        None => r is None && post == pre,
        Some(i) => {
            &&& post.rules@.len() == pre.rules@.len()
            &&& (forall|j: int|
                0 <= j < pre.rules@.len() && j != i ==> post.rules@[j] == pre.rules@[j])
            &&& trigger_outcome(pre, post, i, r)
        },
    }
}

/// The dispatch engine: the installed rule set, the replacement map, the
/// collision diagnostics of the last load, the load state and the
/// re-entrancy guard. Replaced wholesale on reload, never mutated
/// field-by-field from outside.
#[derive(Debug)]
pub struct Engine {
    pub rules: Vec<ShortcutKeyConfig>,
    pub map: ReplacementMap,
    pub diagnostics: Vec<String>,
    pub loaded: bool,
    pub lock: bool,
}

impl Engine {
    pub open spec fn wf(&self) -> bool {
        forall|i: int| 0 <= i < self.rules@.len() ==> rule_wf(#[trigger] self.rules@[i])
    }

    /// A fresh engine: no rules, empty map, unlocked, unloaded.
    pub fn new() -> (r: Self)
        ensures
            r.rules@.len() == 0,
            r.map@ == Seq::<(Seq<char>, Seq<char>)>::empty(),
            r.diagnostics@.len() == 0,
            !r.loaded,
            !r.lock,
            r.wf(),
    {
        Engine {
            rules: Vec::new(),
            map: ReplacementMap::new(),
            diagnostics: Vec::new(),
            loaded: false,
            lock: false,
        }
    }

    /// Whether the re-entrancy guard is set.
    pub fn caps_shortcut_listener_is_lock(&self) -> (r: bool)
        ensures
            r == self.lock,
    {
        self.lock
    }

    /// Set or clear the re-entrancy guard. The background macro execution
    /// clears it when the last step completes.
    pub fn set_caps_shortcut_listener_lock(&mut self, val: bool)
        ensures
            final(self).lock == val,
            final(self).rules == old(self).rules,
            final(self).map == old(self).map,
            final(self).diagnostics == old(self).diagnostics,
            final(self).loaded == old(self).loaded,
    {
        self.lock = val;
    }

    /// Clear all matching logic: no rules remain active (fail-closed).
    pub fn clear(&mut self)
        ensures
            final(self).rules@.len() == 0,
            final(self).map@ == Seq::<(Seq<char>, Seq<char>)>::empty(),
            final(self).diagnostics@.len() == 0,
            !final(self).loaded,
            final(self).lock == old(self).lock,
            final(self).wf(),
    {
        self.rules = Vec::new();
        self.map = ReplacementMap::new();
        self.diagnostics = Vec::new();
        self.loaded = false;
    }

    /// Build a fresh rule set from the two documents' texts and install it
    /// atomically; on any failure the engine is cleared instead (a broken
    /// config never leaves a previous rule set running). An unreadable
    /// shortcut document (`None`) yields no rules but is not a failure; an
    /// unreadable replacement document is one.
    #[verifier::loop_isolation(false)]
    pub fn reload(&mut self, shortcut_text: Option<&str>, replace_text: Option<&str>) -> (r:
        Result<(), LoadError>)
        ensures
            final(self).wf(),
            final(self).lock == old(self).lock,
            match r {
                Ok(()) => final(self).loaded && (match shortcut_text {
                    None => final(self).rules@.len() == 0,
                    Some(st) => match shortcut_doc_model(st@) {
                        ShortcutDocModel::NotArray => final(self).rules@.len() == 0,
                        ShortcutDocModel::Entries(items) => first_entry_err(items, 0) is None
                            && final(self).rules@.len() == items.len() && forall|q: int|
                            0 <= q < items.len() ==> (entry_spec(items[q]) matches Ok(t)
                                && config_matches(#[trigger] final(self).rules@[q], t.0, t.1, t.2)),
                        _ => false,
                    },
                }) && (match replace_text {
                    Some(rt) => ini_sections_of(rt@) matches Some(secs) && final(self).map@
                        == build_from(Seq::<(Seq<char>, Seq<char>)>::empty(), doc_pairs(secs))
                        && final(self).diagnostics.deep_view() == collisions_from(
                        Seq::<(Seq<char>, Seq<char>)>::empty(),
                        doc_pairs(secs),
                    ),
                    None => false,
                }),
                Err(e) => final(self).rules@.len() == 0 && !final(self).loaded
                    && final(self).map@.len() == 0 && match e {
                    LoadError::ScanError(_) => shortcut_text matches Some(st)
                        && shortcut_doc_model(st@) is ScanFail,
                    LoadError::FileNotFound => shortcut_text matches Some(st)
                        && shortcut_doc_model(st@) is NotConfigured,
                    LoadError::JsonError(_) => shortcut_text matches Some(st)
                        && shortcut_doc_model(st@) is JsonFail,
                    LoadError::ConfigError(fe) => shortcut_text matches Some(st)
                        && shortcut_doc_model(st@) matches ShortcutDocModel::Entries(items)
                        && first_entry_err(items, 0) matches Some(ix) && entry_spec(items[ix]) matches Err(m)
                        && err_matches(fe, m),
                    LoadError::ReplaceTextConfigError(_) => (match shortcut_text {
                        None => true,
                        Some(st) => match shortcut_doc_model(st@) {
                            ShortcutDocModel::NotArray => true,
                            ShortcutDocModel::Entries(items) => first_entry_err(items, 0) is None,
                            _ => false,
                        },
                    }) && (replace_text is None || ini_sections_of(replace_text->0@) is None),
                },
            },
    {
        let mut rules: Vec<ShortcutKeyConfig> = Vec::new();
        match shortcut_text {
            None => {},
            Some(st) => {
                match shortcut_key_config(st) {
                    Err(ShortcutConfigDocError::Scan(m)) => {
                        self.clear();
                        return Err(LoadError::ScanError(m));
                    },
                    Err(ShortcutConfigDocError::Json(m)) => {
                        self.clear();
                        return Err(LoadError::JsonError(m));
                    },
                    Ok(None) => {
                        self.clear();
                        return Err(LoadError::FileNotFound);
                    },
                    Ok(Some(mut list)) => {
                        let ghost items: Seq<JsonValue> = match shortcut_doc_model(st@) {
                            ShortcutDocModel::Entries(items) => items,
                            _ => Seq::<JsonValue>::empty(),
                        };
                        let ghost lv = list@;
                        let n0: usize = list.len();
                        proof {
                            assert(lv.skip(0) =~= lv);
                            assert(lv.len() == n0);
                        }
                        let mut idx: usize = 0;
                        while list.len() > 0
                            invariant
                                *self == *old(self),
                                idx + list@.len() == lv.len(),
                                list@ == lv.skip(idx as int),
                                lv.len() <= usize::MAX,
                                shortcut_doc_model(st@) is NotArray ==> lv.len() == 0,
                                shortcut_doc_model(st@) is Entries ==> lv.len() == items.len()
                                    && (forall|q: int|
                                    0 <= q < items.len() ==> result_matches(
                                        #[trigger] lv[q],
                                        entry_spec(items[q]),
                                    )),
                                shortcut_doc_model(st@) is Entries
                                    || shortcut_doc_model(st@) is NotArray,
                                rules@.len() == idx,
                                forall|q: int|
                                    0 <= q < idx ==> result_matches(
                                        Ok::<ShortcutKeyConfig, ShortcutKeyConfigFileFormatError>(
                                            #[trigger] rules@[q],
                                        ),
                                        entry_spec(items[q]),
                                    ),
                            decreases list@.len(),
                        {
                            proof {
                                assert(lv.skip(idx as int)[0] == lv[idx as int]);
                                assert(lv.skip(idx as int).drop_first() =~= lv.skip(idx + 1));
                            }
                            let entry = list.remove(0);
                            proof {
                                assert(result_matches(lv[idx as int], entry_spec(items[idx as int])));
                            }
                            match entry {
                                Ok(c) => {
                                    let ghost rules0 = rules@;
                                    proof {
                                        assert(lv[idx as int] == Ok::<
                                            ShortcutKeyConfig,
                                            ShortcutKeyConfigFileFormatError,
                                        >(c));
                                    }
                                    rules.push(c);
                                    proof {
                                        assert(rules@[idx as int] == c);
                                        assert(forall|q: int|
                                            0 <= q < idx ==> #[trigger] rules@[q] == rules0[q]);
                                    }
                                },
                                Err(e) => {
                                    proof {
                                        assert(entry_spec(items[idx as int]) is Err);
                                        assert forall|j: int| 0 <= j < idx implies entry_spec(
                                            #[trigger] items[j],
                                        ) is Ok by {
                                            assert(result_matches(
                                                Ok::<
                                                    ShortcutKeyConfig,
                                                    ShortcutKeyConfigFileFormatError,
                                                >(rules@[j]),
                                                entry_spec(items[j]),
                                            ));
                                        }
                                        lemma_first_entry_err_prefix(items, idx as int);
                                    }
                                    self.clear();
                                    return Err(LoadError::ConfigError(e));
                                },
                            }
                            idx = idx + 1;
                        }
                        proof {
                            if shortcut_doc_model(st@) is Entries {
                                assert forall|j: int| 0 <= j < items.len() implies entry_spec(
                                    #[trigger] items[j],
                                ) is Ok by {
                                    assert(result_matches(
                                        Ok::<ShortcutKeyConfig, ShortcutKeyConfigFileFormatError>(
                                            rules@[j],
                                        ),
                                        entry_spec(items[j]),
                                    ));
                                }
                                lemma_first_entry_err_prefix(items, items.len() as int);
                                assert forall|q: int| 0 <= q < items.len() implies (entry_spec(
                                    items[q],
                                ) matches Ok(t) && config_matches(
                                    #[trigger] rules@[q],
                                    t.0,
                                    t.1,
                                    t.2,
                                )) by {
                                    assert(result_matches(
                                        Ok::<ShortcutKeyConfig, ShortcutKeyConfigFileFormatError>(
                                            rules@[q],
                                        ),
                                        entry_spec(items[q]),
                                    ));
                                }
                            }
                        }
                    },
                }
            },
        }
        let loaded_maps = match replace_text {
            None => {
                self.clear();
                return Err(
                    LoadError::ReplaceTextConfigError(
                        String::from_str("replacement document missing"),
                    ),
                );
            },
            Some(rt) => match replace_text_config(rt) {
                Ok(p) => p,
                Err(m) => {
                    self.clear();
                    return Err(LoadError::ReplaceTextConfigError(m));
                },
            },
        };
        proof {
            assert forall|q: int| 0 <= q < rules@.len() implies rule_wf(
                #[trigger] rules@[q],
            ) by {
                match rules@[q].feature {
                    CapslockForgetFeature::InputText(a) => {
                        assert(a.text_list.deep_view().len() == a.text_list@.len());
                    },
                    _ => {},
                }
            }
        }
        self.rules = rules;
        self.map = loaded_maps.0;
        self.diagnostics = loaded_maps.1;
        self.loaded = true;
        Ok(())
    }

    /// Handle one observed key event, synchronously. With the re-entrancy
    /// guard set nothing is evaluated and the event passes through.
    /// Otherwise the first rule whose binding matches the event fires: its
    /// action's state advances here, and what must happen off the hook
    /// thread comes back as the request. `None` means "not handled".
    #[verifier::loop_isolation(false)]
    pub fn dispatch(&mut self, key: Key, ctrl: bool, shift: bool, alt: bool, meta: bool) -> (r:
        Option<ActionRequest>)
        requires
            old(self).wf(),
        ensures
            final(self).wf(),
            final(self).loaded == old(self).loaded,
            final(self).map == old(self).map,
            final(self).diagnostics == old(self).diagnostics,
            old(self).lock ==> r is None && *final(self) == *old(self),
            !old(self).lock ==> dispatch_outcome(
                *old(self),
                *final(self),
                key,
                ctrl,
                shift,
                alt,
                meta,
                r,
            ),
    {
        if self.lock {
            return None;
        }
        let n = self.rules.len();
        let mut i: usize = 0;
        while i < n
            invariant
                i <= n,
                *self == *old(self),
                n == self.rules@.len(),
                first_match(self.rules@, key, ctrl, shift, alt, meta, 0) == first_match(
                    self.rules@,
                    key,
                    ctrl,
                    shift,
                    alt,
                    meta,
                    i as int,
                ),
            decreases n - i,
        {
            let hit = self.rules[i].key == key && self.rules[i].modifier_key.match_key(
                ctrl,
                shift,
                alt,
                meta,
            );
            if hit {
                proof {
                    assert(first_match(self.rules@, key, ctrl, shift, alt, meta, i as int)
                        == Some(i as int));
                }
                let ghost rules0 = self.rules@;
                let mut tmp = ShortcutKeyConfig {
                    key: Key::Alt,
                    modifier_key: ModifierKey::new(),
                    feature: CapslockForgetFeature::Multifunctional(MultifunctionalAction),
                };
                core::mem::swap(&mut tmp, &mut self.rules[i]);
                let taken = tmp;
                let mut need_lock = false;
                let outcome = match taken.feature {
                    CapslockForgetFeature::InputText(mut a) => {
                        proof {
                            assert(rule_wf(rules0[i as int]));
                        }
                        let t = a.input_next_text();
                        (
                            ActionRequest::InjectText(t),
                            ShortcutKeyConfig {
                                key: taken.key,
                                modifier_key: taken.modifier_key,
                                feature: CapslockForgetFeature::InputText(a),
                            },
                        )
                    },
                    CapslockForgetFeature::Input(a) => {
                        need_lock = true;
                        let evs = a.execute();
                        (
                            ActionRequest::Simulate(evs),
                            ShortcutKeyConfig {
                                key: taken.key,
                                modifier_key: taken.modifier_key,
                                feature: CapslockForgetFeature::Input(a),
                            },
                        )
                    },
                    CapslockForgetFeature::Multifunctional(ma) => {
                        (
                            ActionRequest::ReplaceSelection,
                            ShortcutKeyConfig {
                                key: taken.key,
                                modifier_key: taken.modifier_key,
                                feature: CapslockForgetFeature::Multifunctional(ma),
                            },
                        )
                    },
                };
                let (req, newcfg) = outcome;
                let mut back = newcfg;
                core::mem::swap(&mut back, &mut self.rules[i]);
                if need_lock {
                    self.lock = true;
                }
                proof {
                    assert(final(self).rules@ =~= rules0.update(i as int, final(self).rules@[i as int]));
                }
                return Some(req);
            }
            i = i + 1;
        }
        None
    }
}

/// The first match is never a later duplicate: where an earlier rule
/// carries the identical binding and matches, dispatch selects a rule no
/// later than it.
pub proof fn lemma_first_match_min(
    rules: Seq<ShortcutKeyConfig>,
    key: Key,
    ctrl: bool,
    shift: bool,
    alt: bool,
    meta: bool,
    p: int,
    i: int,
)
    requires
        0 <= p <= i < rules.len(),
        rule_matches(rules[i], key, ctrl, shift, alt, meta),
    ensures
        first_match(rules, key, ctrl, shift, alt, meta, p) matches Some(x) && p <= x <= i,
    decreases i - p,
{
    if p < i && !rule_matches(rules[p], key, ctrl, shift, alt, meta) {
        lemma_first_match_min(rules, key, ctrl, shift, alt, meta, p + 1, i);
    }
}

/// Given two rules bound to the identical binding, dispatch on a matching
/// event always selects the earlier-declared one.
pub proof fn lemma_earlier_rule_wins(
    rules: Seq<ShortcutKeyConfig>,
    i: int,
    j: int,
    key: Key,
    ctrl: bool,
    shift: bool,
    alt: bool,
    meta: bool,
)
    requires
        0 <= i < j < rules.len(),
        rules[j].key == rules[i].key,
        rules[j].modifier_key == rules[i].modifier_key,
        rule_matches(rules[i], key, ctrl, shift, alt, meta),
    ensures
        first_match(rules, key, ctrl, shift, alt, meta, 0) matches Some(x) && x <= i && x != j,
{
    lemma_first_match_min(rules, key, ctrl, shift, alt, meta, 0, i);
}

} // verus!
