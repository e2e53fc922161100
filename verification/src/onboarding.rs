//! The first-run onboarding wizard as a state machine: pick a provider,
//! enter its key when it needs one, pick a model when it has several. Each
//! step says which config writes and which secret it asks the caller to
//! carry out, and where the wizard goes next.

use crate::config::{base_url_write_for, TomlValue, TomlValueView};
use crate::model_picker::{first_with_id, lemma_first_with_id, move_target, move_to_choosable, position_id, PickOption};
use crate::text::chars_of;
use vstd::prelude::*;

verus! {

/// The wizard's steps.
#[derive(Debug, Clone, Copy, PartialEq, Eq, Structural)]
pub enum OnboardingStep {
    Provider,
    ApiKey,
    Model,
}

/// The wizard on screen.
#[derive(Debug, Clone)]
pub struct OnboardingState {
    pub step: OnboardingStep,
    /// The provider chosen in the first step (empty before).
    pub chosen_provider: String,
    /// The list shown in the provider and model steps.
    pub options: Vec<PickOption>,
    pub list_sel: usize,
    /// The key typed so far in the key step.
    pub key_buffer: String,
    /// The provider an environment variable forces, shown as a warning.
    pub env_shadow: Option<String>,
}

/// Where the wizard goes after an event.
#[derive(Debug, Clone)]
pub enum OnboardingNext {
    /// Nothing happened; the wizard stays as it was.
    Stay(OnboardingState),
    /// The wizard moves on to this state.
    Advance(OnboardingState),
    /// The wizard is finished and closes.
    Done,
}

/// What the caller carries out for an event: config writes in order, a
/// secret to store, and the wizard's next state.
#[derive(Debug, Clone)]
pub struct OnboardingOutcome {
    pub writes: Vec<(String, TomlValue)>,
    pub secret: Option<(String, String)>,
    pub next: OnboardingNext,
}

impl OnboardingState {
    /// The wizard at its first step, over the provider list.
    pub fn start(options: Vec<PickOption>, env_shadow: Option<String>) -> (r: OnboardingState)
        ensures
            r.step == OnboardingStep::Provider,
            r.chosen_provider@ == Seq::<char>::empty(),
            r.options@ == options@,
            r.list_sel == 0,
            r.key_buffer@ == Seq::<char>::empty(),
            r.env_shadow == env_shadow,
    {
        OnboardingState {
            step: OnboardingStep::Provider,
            chosen_provider: String::new(),
            options,
            list_sel: 0,
            key_buffer: String::new(),
            env_shadow,
        }
    }

    /// The id of the highlighted option when it can be chosen.
    pub open spec fn chosen_spec(&self) -> Option<Seq<char>> {
        if self.list_sel < self.options@.len() && self.options@[self.list_sel as int].selectable {
            Some(self.options@[self.list_sel as int].id@)
        } else {
            None
        }
    }

    /// The id of the highlighted option, if it can be chosen.
    pub fn chosen(&self) -> (r: Option<String>)
        ensures
            match self.chosen_spec() {
                Some(id) => r matches Some(s) && s@ == id,
                None => r is None,
            },
    {
        if self.list_sel < self.options.len() && self.options[self.list_sel].selectable {
            Some(self.options[self.list_sel].id.clone())
        } else {
            None
        }
    }
}
impl OnboardingState {
    /// Move the highlight `d` rows, skipping options that cannot be chosen
    /// and wrapping round the list; nothing happens on an empty list.
    pub fn move_highlight(&mut self, d: i16)
        requires
            old(self).options@.len() <= i16::MAX,
            old(self).list_sel <= i16::MAX,
            old(self).list_sel + d <= i16::MAX,
            old(self).options@.len() > 0 ==> old(self).options@.len() - 1 + d <= i16::MAX,
        ensures
            final(self).step == old(self).step,
            final(self).chosen_provider == old(self).chosen_provider,
            final(self).options == old(self).options,
            final(self).key_buffer == old(self).key_buffer,
            final(self).env_shadow == old(self).env_shadow,
            old(self).options@.len() == 0 ==> final(self).list_sel == old(self).list_sel,
            old(self).options@.len() > 0 ==> final(self).list_sel == move_target(
                old(self).options@.map_values(|o: PickOption| o.selectable),
                old(self).list_sel as int,
                d as int,
            ),
    {
        self.list_sel = move_to_choosable(&self.options, self.list_sel, d as i32);
    }
}

/// Config writes as plain data.
pub open spec fn writes_view(w: Seq<(String, TomlValue)>) -> Seq<(Seq<char>, TomlValueView)> {
    w.map_values(|p: (String, TomlValue)| (p.0@, p.1@))
}

/// The `base_url` a chosen provider writes: its registry default, or
/// removed when it has none.
pub open spec fn base_url_value(default: Option<Seq<char>>) -> TomlValueView {
    match default {
        Some(d) => TomlValueView::Str(d),
        None => TomlValueView::Unset,
    }
}

/// The key step the wizard moves to after a provider that needs a key.
pub open spec fn key_step_of(s: OnboardingState, prev: OnboardingState, provider: Seq<char>) -> bool {
    &&& s.step == OnboardingStep::ApiKey
    &&& s.chosen_provider@ == provider
    &&& s.options@ == prev.options@
    &&& s.list_sel == 0
    &&& s.key_buffer@ == Seq::<char>::empty()
    &&& s.env_shadow is None
}

/// The synthetic first row of the model step: keep the provider's default.
pub open spec fn is_default_row(o: PickOption) -> bool {
    &&& o.id@ == Seq::<char>::empty()
    &&& o.label@ == "use default"@
    &&& o.detail@ == Seq::<char>::empty()
    &&& o.selectable
    &&& !o.is_current
}

fn pair(key: &str, value: TomlValue) -> (r: (String, TomlValue))
    ensures
        r.0@ == key@,
        r.1 == value,
{
    (String::from_str(key), value)
}

impl OnboardingState {
    /// Enter on the highlighted option. In the provider step: write the
    /// provider, its `base_url` default (`base_url_default`, from the
    /// registry) and clear the model, then go to the key step when the
    /// provider needs a key (`requires_key`) or finish. In the model step:
    /// write the chosen model, the first row meaning the default (empty),
    /// and finish. An option that cannot be chosen, or Enter in the key
    /// step, changes nothing.
    pub fn select(self, requires_key: bool, base_url_default: Option<&str>) -> (r: OnboardingOutcome)
        ensures
            r.secret is None,
            (self.chosen_spec() is None || self.step == OnboardingStep::ApiKey) ==> (writes_view(r.writes@)
                == Seq::<(Seq<char>, TomlValueView)>::empty() && (r.next matches OnboardingNext::Stay(s) && s
                == self)),
            self.chosen_spec() matches Some(id) ==> self.step == OnboardingStep::Provider ==> {
                &&& writes_view(r.writes@) == seq![
                    ("provider"@, TomlValueView::Str(id)),
                    (
                        "base_url"@,
                        base_url_value(
                            match base_url_default {
                                Some(d) => Some(d@),
                                None => None,
                            },
                        ),
                    ),
                    ("model"@, TomlValueView::Unset),
                ]
                &&& requires_key ==> (r.next matches OnboardingNext::Advance(s) && key_step_of(s, self, id))
                &&& !requires_key ==> r.next is Done
            },
            self.chosen_spec() matches Some(id) ==> self.step == OnboardingStep::Model ==> {
                &&& writes_view(r.writes@) == seq![
                    (
                        "model"@,
                        TomlValueView::Str(if self.list_sel == 0 { Seq::<char>::empty() } else { id }),
                    ),
                ]
                &&& r.next is Done
            },
    {
        proof {
            reveal_strlit("");
        }
        let chosen = self.chosen();
        let id = match chosen {
            Some(id) => id,
            None => {
                return OnboardingOutcome { writes: Vec::new(), secret: None, next: OnboardingNext::Stay(self) };
            },
        };
        match self.step {
            OnboardingStep::Provider => {
                let mut writes: Vec<(String, TomlValue)> = Vec::new();
                writes.push(pair("provider", TomlValue::Str(id.clone())));
                writes.push(pair("base_url", base_url_write_for(base_url_default)));
                writes.push(pair("model", TomlValue::Unset));
                assert(writes_view(writes@) =~= seq![
                    ("provider"@, TomlValueView::Str(id@)),
                    (
                        "base_url"@,
                        base_url_value(
                            match base_url_default {
                                Some(d) => Some(d@),
                                None => None,
                            },
                        ),
                    ),
                    ("model"@, TomlValueView::Unset),
                ]);
                let next = if requires_key {
                    OnboardingNext::Advance(
                        OnboardingState {
                            step: OnboardingStep::ApiKey,
                            chosen_provider: id,
                            options: self.options,
                            list_sel: 0,
                            key_buffer: String::new(),
                            env_shadow: None,
                        },
                    )
                } else {
                    OnboardingNext::Done
                };
                OnboardingOutcome { writes, secret: None, next }
            },
            OnboardingStep::Model => {
                let model = if self.list_sel == 0 {
                    String::new()
                } else {
                    id
                };
                let mut writes: Vec<(String, TomlValue)> = Vec::new();
                writes.push(pair("model", TomlValue::Str(model)));
                assert(writes_view(writes@) =~= seq![("model"@, TomlValueView::Str(model@))]);
                OnboardingOutcome { writes, secret: None, next: OnboardingNext::Done }
            },
            OnboardingStep::ApiKey => {
                OnboardingOutcome { writes: Vec::new(), secret: None, next: OnboardingNext::Stay(self) }
            },
        }
    }

    /// Enter in the key step. An empty key changes nothing. Otherwise the
    /// key is stored under `key_env` (the provider's secret name), and the
    /// wizard moves to the model step over `model_options` (the provider's
    /// models) with a first row that keeps the default, when there is more
    /// than one model; else it clears the model and finishes.
    pub fn submit_key(self, key_env: &str, model_options: Vec<PickOption>) -> (r: OnboardingOutcome)
        ensures
            self.key_buffer@.len() == 0 ==> (writes_view(r.writes@) == Seq::<(Seq<char>, TomlValueView)>::empty()
                && r.secret is None && (r.next matches OnboardingNext::Stay(s) && s == self)),
            self.key_buffer@.len() > 0 ==> {
                &&& r.secret matches Some((k, v)) && k@ == key_env@ && v@ == self.key_buffer@
                &&& model_options@.len() > 1 ==> {
                    &&& writes_view(r.writes@) == Seq::<(Seq<char>, TomlValueView)>::empty()
                    &&& r.next matches OnboardingNext::Advance(s) && {
                        &&& s.step == OnboardingStep::Model
                        &&& s.chosen_provider@ == self.chosen_provider@
                        &&& s.options@.len() == model_options@.len() + 1
                        &&& is_default_row(s.options@[0])
                        &&& s.options@.drop_first() == model_options@
                        &&& s.list_sel == 0
                        &&& s.key_buffer@ == Seq::<char>::empty()
                        &&& s.env_shadow is None
                    }
                }
                &&& model_options@.len() <= 1 ==> {
                    &&& writes_view(r.writes@) == seq![("model"@, TomlValueView::Unset)]
                    &&& r.next is Done
                }
            },
    {
        proof {
            reveal_strlit("");
        }
        if chars_of(self.key_buffer.as_str()).len() == 0 {
            return OnboardingOutcome { writes: Vec::new(), secret: None, next: OnboardingNext::Stay(self) };
        }
        let secret = Some((String::from_str(key_env), self.key_buffer.clone()));
        if model_options.len() > 1 {
            let mut options: Vec<PickOption> = Vec::new();
            options.push(
                PickOption {
                    id: String::new(),
                    label: String::from_str("use default"),
                    detail: String::new(),
                    selectable: true,
                    is_current: false,
                },
            );
            let mut rest = model_options;
            options.append(&mut rest);
            assert(options@.drop_first() =~= model_options@);
            let next = OnboardingNext::Advance(
                OnboardingState {
                    step: OnboardingStep::Model,
                    chosen_provider: self.chosen_provider,
                    options,
                    list_sel: 0,
                    key_buffer: String::new(),
                    env_shadow: None,
                },
            );
            OnboardingOutcome { writes: Vec::new(), secret, next }
        } else {
            let mut writes: Vec<(String, TomlValue)> = Vec::new();
            writes.push(pair("model", TomlValue::Unset));
            assert(writes_view(writes@) =~= seq![("model"@, TomlValueView::Unset)]);
            OnboardingOutcome { writes, secret, next: OnboardingNext::Done }
        }
    }

    /// Back from the key step to the provider step over `provider_options`,
    /// with the provider chosen before highlighted (else the top) and the
    /// typed key cleared.
    pub fn back(&mut self, provider_options: Vec<PickOption>)
        ensures
            final(self).step == OnboardingStep::Provider,
            final(self).chosen_provider == old(self).chosen_provider,
            final(self).options@ == provider_options@,
            final(self).list_sel == match first_with_id(provider_options@, old(self).chosen_provider@) {
                Some(i) => i,
                None => 0,
            },
            final(self).key_buffer@ == Seq::<char>::empty(),
            final(self).env_shadow == old(self).env_shadow,
    {
        let sel = match position_id(&provider_options, self.chosen_provider.as_str()) {
            Some(i) => {
                proof {
                    lemma_first_with_id(provider_options@, self.chosen_provider@, i as int);
                }
                i
            },
            None => 0,
        };
        self.step = OnboardingStep::Provider;
        self.options = provider_options;
        self.list_sel = sel;
        self.key_buffer = String::new();
    }
}

/// Going back from the key step highlights the provider chosen before,
/// when the provider list still offers it.
pub proof fn lemma_back_highlights_previous_choice(options: Seq<PickOption>, prev: Seq<char>)
    requires
        exists|j: int| 0 <= j < options.len() && options[j].id@ == prev,
    ensures
        first_with_id(options, prev) matches Some(i) && 0 <= i < options.len() && options[i].id@ == prev,
{
    let j = choose|j: int| 0 <= j < options.len() && options[j].id@ == prev;
    let m = crate::model_picker::lemma_least_with_id(options, prev, j);
    lemma_first_with_id(options, prev, m);
}

} // verus!
