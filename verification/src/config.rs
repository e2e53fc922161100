//! Configuration decisions: where an edited config row is written and what
//! value an edit buffer becomes, the compaction policy, the thinking mode,
//! the `ZOID_THINKING` override, and the onboarding and credential gates.

use crate::paths::Env;
use crate::text::{
    chars_eq, chars_of, decimal, decimal_chars, extend_chars, extend_str, parse_i64, parse_signed,
    parse_u16, parse_u64, parse_unsigned, string_of, trim, trim_chars,
};
use vstd::prelude::*;

verus! {

/// How a committed text value is coerced before it is written to TOML.
#[derive(Debug, Clone, Copy, PartialEq, Eq, Structural)]
pub enum TomlTy {
    /// Free string, always written verbatim (provider, model).
    Str,
    /// String where an empty buffer removes the key (base_url).
    StrUnsetEmpty,
    /// Unsigned int; empty, `(none)` or unparseable removes the key.
    U64Unset,
    /// Percent clamped to 0..=100; unparseable is a no-op.
    U8Pct,
    /// Non-negative integer written verbatim; anything else is a no-op.
    UintPlain,
}

/// Where the config row under the cursor persists: the secret store (keyed
/// by the row's label), or a dotted TOML key with a coercion rule.
#[derive(Debug, Clone, PartialEq, Eq)]
pub enum FieldTarget {
    Secret,
    Toml { key: String, ty: TomlTy },
}

/// The dotted TOML key and coercion for a config row label; `None` for a
/// row with no text target (the booleans, which persist by toggling).
pub open spec fn toml_target(label: Seq<char>) -> Option<(Seq<char>, TomlTy)> {
    if label == "provider"@ {
        Some(("provider"@, TomlTy::Str))
    } else if label == "model"@ {
        Some(("model"@, TomlTy::Str))
    } else if label == "base_url"@ {
        Some(("base_url"@, TomlTy::StrUnsetEmpty))
    } else if label == "context target"@ {
        Some(("economy.context_target"@, TomlTy::U64Unset))
    } else if label == "compact at %"@ {
        Some(("economy.compact_threshold_pct"@, TomlTy::U8Pct))
    } else if label == "band headroom %"@ {
        Some(("economy.band_headroom_pct"@, TomlTy::U8Pct))
    } else if label == "protected turns"@ {
        Some(("economy.min_protected_turns"@, TomlTy::UintPlain))
    } else if label == "protection pct"@ {
        Some(("economy.protection_pct"@, TomlTy::U8Pct))
    } else {
        None
    }
}

fn eq_str(a: &str, b: &str) -> (r: bool)
    ensures
        r == (a@ == b@),
{
    chars_eq(&chars_of(a), &chars_of(b))
}

fn toml(key: &str, ty: TomlTy) -> (r: Option<FieldTarget>)
    ensures
        r matches Some(FieldTarget::Toml { key: k, ty: t }) && k@ == key@ && t == ty,
{
    Some(FieldTarget::Toml { key: String::from_str(key), ty })
}

/// Map a config row, by its exact label (and whether it is a secret row),
/// to its write target.
pub fn field_target(label: &str, is_secret: bool) -> (r: Option<FieldTarget>)
    ensures
        is_secret ==> r == Some(FieldTarget::Secret),
        !is_secret ==> match toml_target(label@) {
            Some((k, t)) => r matches Some(FieldTarget::Toml { key, ty }) && key@ == k && ty == t,
            None => r is None,
        },
{
    if is_secret {
        return Some(FieldTarget::Secret);
    }
    if eq_str(label, "provider") {
        toml("provider", TomlTy::Str)
    } else if eq_str(label, "model") {
        toml("model", TomlTy::Str)
    } else if eq_str(label, "base_url") {
        toml("base_url", TomlTy::StrUnsetEmpty)
    } else if eq_str(label, "context target") {
        toml("economy.context_target", TomlTy::U64Unset)
    } else if eq_str(label, "compact at %") {
        toml("economy.compact_threshold_pct", TomlTy::U8Pct)
    } else if eq_str(label, "band headroom %") {
        toml("economy.band_headroom_pct", TomlTy::U8Pct)
    } else if eq_str(label, "protected turns") {
        toml("economy.min_protected_turns", TomlTy::UintPlain)
    } else if eq_str(label, "protection pct") {
        toml("economy.protection_pct", TomlTy::U8Pct)
    } else {
        None
    }
}

/// A value written to a TOML key; `Unset` removes the key.
#[derive(Debug, Clone, PartialEq, Eq)]
pub enum TomlValue {
    Str(String),
    Int(i64),
    Bool(bool),
    Unset,
}

/// A TOML value as plain data.
pub enum TomlValueView {
    Str(Seq<char>),
    Int(int),
    Bool(bool),
    Unset,
}

impl View for TomlValue {
    type V = TomlValueView;

    open spec fn view(&self) -> TomlValueView {
        match self {
            TomlValue::Str(s) => TomlValueView::Str(s@),
            TomlValue::Int(n) => TomlValueView::Int(*n as int),
            TomlValue::Bool(b) => TomlValueView::Bool(*b),
            TomlValue::Unset => TomlValueView::Unset,
        }
    }
}

/// `n as i64` for an unsigned 64-bit value: values past `i64::MAX` wrap
/// to negative.
pub open spec fn wrap_i64(n: nat) -> int {
    if n <= i64::MAX {
        n as int
    } else {
        n - 0x1_0000_0000_0000_0000
    }
}

/// `n.clamp(0, 100)`.
pub open spec fn clamp_pct(n: int) -> int {
    if n < 0 {
        0
    } else if n > 100 {
        100
    } else {
        n
    }
}

/// The value a committed edit buffer produces under a coercion, or `None`
/// when the edit is a no-op.
pub open spec fn buffer_value(ty: TomlTy, buf: Seq<char>) -> Option<TomlValueView> {
    let t = trim(buf);
    match ty {
        TomlTy::Str => Some(TomlValueView::Str(buf)),
        TomlTy::StrUnsetEmpty => if t.len() == 0 {
            Some(TomlValueView::Unset)
        } else {
            Some(TomlValueView::Str(buf))
        },
        TomlTy::U64Unset => if t.len() == 0 || t == "(none)"@ {
            Some(TomlValueView::Unset)
        } else {
            match parse_unsigned(t, u64::MAX as nat) {
                Some(n) => Some(TomlValueView::Int(wrap_i64(n))),
                None => Some(TomlValueView::Unset),
            }
        },
        TomlTy::U8Pct => match parse_signed(t, i64::MAX as nat) {
            Some(n) => Some(TomlValueView::Int(clamp_pct(n))),
            None => None,
        },
        TomlTy::UintPlain => match parse_signed(t, i64::MAX as nat) {
            Some(n) => if n >= 0 {
                Some(TomlValueView::Int(n))
            } else {
                None
            },
            None => None,
        },
    }
}

/// Build the value a committed edit buffer produces for a given coercion;
/// `None` when the edit should be a no-op (e.g. an unparseable percent).
pub fn value_from_buffer(ty: TomlTy, buf: &str) -> (r: Option<TomlValue>)
    ensures
        match buffer_value(ty, buf@) {
            Some(v) => r matches Some(x) && x@ == v,
            None => r is None,
        },
{
    let t = trim_chars(&chars_of(buf));
    match ty {
        TomlTy::Str => Some(TomlValue::Str(String::from_str(buf))),
        TomlTy::StrUnsetEmpty => {
            if t.len() == 0 {
                Some(TomlValue::Unset)
            } else {
                Some(TomlValue::Str(String::from_str(buf)))
            }
        },
        TomlTy::U64Unset => {
            if t.len() == 0 || chars_eq(&t, &chars_of("(none)")) {
                Some(TomlValue::Unset)
            } else {
                match parse_u64(&t) {
                    Some(n) => {
                        let v: i64 = if n <= i64::MAX as u64 {
                            n as i64
                        } else {
                            ((n - 9_223_372_036_854_775_808u64) as i64) + i64::MIN
                        };
                        Some(TomlValue::Int(v))
                    },
                    None => Some(TomlValue::Unset),
                }
            }
        },
        TomlTy::U8Pct => match parse_i64(&t) {
            Some(n) => {
                let c: i64 = if n < 0 {
                    0
                } else if n > 100 {
                    100
                } else {
                    n
                };
                Some(TomlValue::Int(c))
            },
            None => None,
        },
        TomlTy::UintPlain => match parse_i64(&t) {
            Some(n) => {
                if n >= 0 {
                    Some(TomlValue::Int(n))
                } else {
                    None
                }
            },
            None => None,
        },
    }
}

/// A percent coercion always yields a value within 0..=100.
pub proof fn lemma_pct_value_in_range(buf: Seq<char>)
    ensures
        buffer_value(TomlTy::U8Pct, buf) matches Some(TomlValueView::Int(n)) ==> 0 <= n <= 100,
{
}

/// The live values behind the config pane's rows.
#[derive(Debug, Clone, PartialEq, Eq)]
pub struct ConfigSnapshot {
    pub provider: String,
    pub model: String,
    pub base_url: Option<String>,
    pub context_target: Option<u64>,
    pub eviction_enabled: bool,
    pub auto_evict_cold: bool,
    pub compact_threshold_pct: u8,
    pub band_headroom_pct: u8,
    pub min_protected_turns: u32,
    pub protection_pct: u8,
    pub reduced_motion: bool,
    pub thinking_enabled: bool,
    pub thinking_effort: Option<String>,
    pub companion_enabled: bool,
}

/// An optional string as a TOML value: absent removes the key.
pub open spec fn opt_str_value(o: Option<String>) -> TomlValueView {
    match o {
        Some(s) => TomlValueView::Str(s@),
        None => TomlValueView::Unset,
    }
}

/// The (key, value) that copying a row's live value to a config file
/// writes, by the row's label; `None` for a label with no such row.
pub open spec fn live_write(c: ConfigSnapshot, label: Seq<char>) -> Option<(Seq<char>, TomlValueView)> {
    if label == "provider"@ {
        Some(("provider"@, TomlValueView::Str(c.provider@)))
    } else if label == "model"@ {
        Some(("model"@, TomlValueView::Str(c.model@)))
    } else if label == "base_url"@ {
        Some(("base_url"@, opt_str_value(c.base_url)))
    } else if label == "context target"@ {
        Some((
            "economy.context_target"@,
            match c.context_target {
                Some(n) => TomlValueView::Int(wrap_i64(n as nat)),
                None => TomlValueView::Unset,
            },
        ))
    } else if label == "eviction"@ {
        Some(("eviction.enabled"@, TomlValueView::Bool(c.eviction_enabled)))
    } else if label == "auto-evict cold"@ {
        Some(("economy.auto_evict_cold"@, TomlValueView::Bool(c.auto_evict_cold)))
    } else if label == "compact at %"@ {
        Some(("economy.compact_threshold_pct"@, TomlValueView::Int(c.compact_threshold_pct as int)))
    } else if label == "band headroom %"@ {
        Some(("economy.band_headroom_pct"@, TomlValueView::Int(c.band_headroom_pct as int)))
    } else if label == "protected turns"@ {
        Some(("economy.min_protected_turns"@, TomlValueView::Int(c.min_protected_turns as int)))
    } else if label == "protection pct"@ {
        Some(("economy.protection_pct"@, TomlValueView::Int(c.protection_pct as int)))
    } else if label == "reduced motion"@ {
        Some(("reduced_motion"@, TomlValueView::Bool(c.reduced_motion)))
    } else if label == "thinking"@ {
        Some(("thinking.enabled"@, TomlValueView::Bool(c.thinking_enabled)))
    } else if label == "effort"@ {
        Some(("thinking.effort"@, opt_str_value(c.thinking_effort)))
    } else {
        None
    }
}

fn opt_string_value(o: &Option<String>) -> (r: TomlValue)
    ensures
        r@ == opt_str_value(*o),
{
    match o {
        Some(s) => TomlValue::Str(s.clone()),
        None => TomlValue::Unset,
    }
}

fn write_of(key: &str, value: TomlValue) -> (r: Option<(String, TomlValue)>)
    ensures
        r matches Some((k, v)) && k@ == key@ && v == value,
{
    Some((String::from_str(key), value))
}

/// The (key, value) the row under the cursor would copy from the live
/// config to the project config: `None` for a secret row (secrets never go
/// to TOML) and for an unknown label.
pub fn current_write(cfg: &ConfigSnapshot, label: &str, is_secret: bool) -> (r: Option<(String, TomlValue)>)
    ensures
        is_secret ==> r is None,
        !is_secret ==> match live_write(*cfg, label@) {
            Some((k, v)) => r matches Some((key, value)) && key@ == k && value@ == v,
            None => r is None,
        },
{
    if is_secret {
        return None;
    }
    if eq_str(label, "provider") {
        write_of("provider", TomlValue::Str(cfg.provider.clone()))
    } else if eq_str(label, "model") {
        write_of("model", TomlValue::Str(cfg.model.clone()))
    } else if eq_str(label, "base_url") {
        write_of("base_url", opt_string_value(&cfg.base_url))
    } else if eq_str(label, "context target") {
        let v = match cfg.context_target {
            Some(n) => {
                let w: i64 = if n <= i64::MAX as u64 {
                    n as i64
                } else {
                    ((n - 9_223_372_036_854_775_808u64) as i64) + i64::MIN
                };
                TomlValue::Int(w)
            },
            None => TomlValue::Unset,
        };
        write_of("economy.context_target", v)
    } else if eq_str(label, "eviction") {
        write_of("eviction.enabled", TomlValue::Bool(cfg.eviction_enabled))
    } else if eq_str(label, "auto-evict cold") {
        write_of("economy.auto_evict_cold", TomlValue::Bool(cfg.auto_evict_cold))
    } else if eq_str(label, "compact at %") {
        write_of("economy.compact_threshold_pct", TomlValue::Int(cfg.compact_threshold_pct as i64))
    } else if eq_str(label, "band headroom %") {
        write_of("economy.band_headroom_pct", TomlValue::Int(cfg.band_headroom_pct as i64))
    } else if eq_str(label, "protected turns") {
        write_of("economy.min_protected_turns", TomlValue::Int(cfg.min_protected_turns as i64))
    } else if eq_str(label, "protection pct") {
        write_of("economy.protection_pct", TomlValue::Int(cfg.protection_pct as i64))
    } else if eq_str(label, "reduced motion") {
        write_of("reduced_motion", TomlValue::Bool(cfg.reduced_motion))
    } else if eq_str(label, "thinking") {
        write_of("thinking.enabled", TomlValue::Bool(cfg.thinking_enabled))
    } else if eq_str(label, "effort") {
        write_of("thinking.effort", opt_string_value(&cfg.thinking_effort))
    } else {
        None
    }
}

/// Copying a text row's live value to a config file writes the very key
/// that editing that row writes.
pub proof fn lemma_copy_writes_the_edited_key(c: ConfigSnapshot, label: Seq<char>)
    ensures
        toml_target(label) matches Some((k, t)) ==> (live_write(c, label) matches Some((k2, v)) && k2 == k),
{
    reveal_strlit("provider");
    reveal_strlit("model");
    reveal_strlit("base_url");
    reveal_strlit("context target");
    reveal_strlit("eviction");
    reveal_strlit("auto-evict cold");
    reveal_strlit("compact at %");
    reveal_strlit("band headroom %");
    reveal_strlit("protected turns");
    reveal_strlit("protection pct");
    reveal_strlit("reduced motion");
    reveal_strlit("thinking");
    reveal_strlit("effort");
    if label == "compact at %"@ {
        assert(label[0] != "eviction"@[0]);
        assert(label[0] != "auto-evict cold"@[0]);
    } else if label == "band headroom %"@ {
        assert(label[0] != "eviction"@[0]);
        assert(label[0] != "auto-evict cold"@[0]);
        assert(label[0] != "compact at %"@[0]);
    } else if label == "protected turns"@ {
        assert(label[0] != "eviction"@[0]);
        assert(label[0] != "auto-evict cold"@[0]);
        assert(label[0] != "compact at %"@[0]);
        assert(label[0] != "band headroom %"@[0]);
    } else if label == "protection pct"@ {
        assert(label[0] != "eviction"@[0]);
        assert(label[0] != "auto-evict cold"@[0]);
        assert(label[0] != "compact at %"@[0]);
        assert(label[0] != "band headroom %"@[0]);
        assert(label[9] != "protected turns"@[9]);
    }
}

/// Copying a row's live value writes, under that row's key, the very config
/// field the row displays: the configured model for the model row, the
/// provider for the provider row, and so on for every row of the pane.
pub proof fn lemma_copy_writes_the_displayed_field(c: ConfigSnapshot)
    ensures
        live_write(c, "provider"@) matches Some((k, TomlValueView::Str(v))) && k == "provider"@ && v == c.provider@,
        live_write(c, "model"@) matches Some((k, TomlValueView::Str(v))) && k == "model"@ && v == c.model@,
        live_write(c, "base_url"@) matches Some((k, v)) && k == "base_url"@ && (c.base_url matches Some(u) ==> v
            == TomlValueView::Str(u@)) && (c.base_url is None ==> v is Unset),
        live_write(c, "context target"@) matches Some((k, v)) && k == "economy.context_target"@ && (c.context_target
            matches Some(t) ==> v == TomlValueView::Int(wrap_i64(t as nat))) && (c.context_target is None ==> v is Unset),
        live_write(c, "eviction"@) matches Some((k, TomlValueView::Bool(b))) && k == "eviction.enabled"@ && b == c.eviction_enabled,
        live_write(c, "auto-evict cold"@) matches Some((k, TomlValueView::Bool(b))) && k == "economy.auto_evict_cold"@ && b == c.auto_evict_cold,
        live_write(c, "compact at %"@) matches Some((k, TomlValueView::Int(n))) && k == "economy.compact_threshold_pct"@ && n == c.compact_threshold_pct,
        live_write(c, "band headroom %"@) matches Some((k, TomlValueView::Int(n))) && k == "economy.band_headroom_pct"@ && n == c.band_headroom_pct,
        live_write(c, "protected turns"@) matches Some((k, TomlValueView::Int(n))) && k == "economy.min_protected_turns"@ && n == c.min_protected_turns,
        live_write(c, "protection pct"@) matches Some((k, TomlValueView::Int(n))) && k == "economy.protection_pct"@ && n == c.protection_pct,
        live_write(c, "reduced motion"@) matches Some((k, TomlValueView::Bool(b))) && k == "reduced_motion"@ && b == c.reduced_motion,
        live_write(c, "thinking"@) matches Some((k, TomlValueView::Bool(b))) && k == "thinking.enabled"@ && b == c.thinking_enabled,
        live_write(c, "effort"@) matches Some((k, v)) && k == "thinking.effort"@ && (c.thinking_effort matches Some(u) ==> v
            == TomlValueView::Str(u@)) && (c.thinking_effort is None ==> v is Unset),
{
    reveal_strlit("provider");
    reveal_strlit("model");
    reveal_strlit("base_url");
    reveal_strlit("context target");
    reveal_strlit("eviction");
    reveal_strlit("auto-evict cold");
    reveal_strlit("compact at %");
    reveal_strlit("band headroom %");
    reveal_strlit("protected turns");
    reveal_strlit("protection pct");
    reveal_strlit("reduced motion");
    reveal_strlit("thinking");
    reveal_strlit("effort");
    assert("model"@ != "provider"@) by { assert("model"@.len() != "provider"@.len()); }
    assert("base_url"@ != "provider"@) by { assert("base_url"@[0] != "provider"@[0]); }
    assert("base_url"@ != "model"@) by { assert("base_url"@.len() != "model"@.len()); }
    assert("context target"@ != "provider"@) by { assert("context target"@.len() != "provider"@.len()); }
    assert("context target"@ != "model"@) by { assert("context target"@.len() != "model"@.len()); }
    assert("context target"@ != "base_url"@) by { assert("context target"@.len() != "base_url"@.len()); }
    assert("eviction"@ != "provider"@) by { assert("eviction"@[0] != "provider"@[0]); }
    assert("eviction"@ != "model"@) by { assert("eviction"@.len() != "model"@.len()); }
    assert("eviction"@ != "base_url"@) by { assert("eviction"@[0] != "base_url"@[0]); }
    assert("eviction"@ != "context target"@) by { assert("eviction"@.len() != "context target"@.len()); }
    assert("auto-evict cold"@ != "provider"@) by { assert("auto-evict cold"@.len() != "provider"@.len()); }
    assert("auto-evict cold"@ != "model"@) by { assert("auto-evict cold"@.len() != "model"@.len()); }
    assert("auto-evict cold"@ != "base_url"@) by { assert("auto-evict cold"@.len() != "base_url"@.len()); }
    assert("auto-evict cold"@ != "context target"@) by { assert("auto-evict cold"@.len() != "context target"@.len()); }
    assert("auto-evict cold"@ != "eviction"@) by { assert("auto-evict cold"@.len() != "eviction"@.len()); }
    assert("compact at %"@ != "provider"@) by { assert("compact at %"@.len() != "provider"@.len()); }
    assert("compact at %"@ != "model"@) by { assert("compact at %"@.len() != "model"@.len()); }
    assert("compact at %"@ != "base_url"@) by { assert("compact at %"@.len() != "base_url"@.len()); }
    assert("compact at %"@ != "context target"@) by { assert("compact at %"@.len() != "context target"@.len()); }
    assert("compact at %"@ != "eviction"@) by { assert("compact at %"@.len() != "eviction"@.len()); }
    assert("compact at %"@ != "auto-evict cold"@) by { assert("compact at %"@.len() != "auto-evict cold"@.len()); }
    assert("band headroom %"@ != "provider"@) by { assert("band headroom %"@.len() != "provider"@.len()); }
    assert("band headroom %"@ != "model"@) by { assert("band headroom %"@.len() != "model"@.len()); }
    assert("band headroom %"@ != "base_url"@) by { assert("band headroom %"@.len() != "base_url"@.len()); }
    assert("band headroom %"@ != "context target"@) by { assert("band headroom %"@.len() != "context target"@.len()); }
    assert("band headroom %"@ != "eviction"@) by { assert("band headroom %"@.len() != "eviction"@.len()); }
    assert("band headroom %"@ != "auto-evict cold"@) by { assert("band headroom %"@[0] != "auto-evict cold"@[0]); }
    assert("band headroom %"@ != "compact at %"@) by { assert("band headroom %"@.len() != "compact at %"@.len()); }
    assert("protected turns"@ != "provider"@) by { assert("protected turns"@.len() != "provider"@.len()); }
    assert("protected turns"@ != "model"@) by { assert("protected turns"@.len() != "model"@.len()); }
    assert("protected turns"@ != "base_url"@) by { assert("protected turns"@.len() != "base_url"@.len()); }
    assert("protected turns"@ != "context target"@) by { assert("protected turns"@.len() != "context target"@.len()); }
    assert("protected turns"@ != "eviction"@) by { assert("protected turns"@.len() != "eviction"@.len()); }
    assert("protected turns"@ != "auto-evict cold"@) by { assert("protected turns"@[0] != "auto-evict cold"@[0]); }
    assert("protected turns"@ != "compact at %"@) by { assert("protected turns"@.len() != "compact at %"@.len()); }
    assert("protected turns"@ != "band headroom %"@) by { assert("protected turns"@[0] != "band headroom %"@[0]); }
    assert("protection pct"@ != "provider"@) by { assert("protection pct"@.len() != "provider"@.len()); }
    assert("protection pct"@ != "model"@) by { assert("protection pct"@.len() != "model"@.len()); }
    assert("protection pct"@ != "base_url"@) by { assert("protection pct"@.len() != "base_url"@.len()); }
    assert("protection pct"@ != "context target"@) by { assert("protection pct"@[0] != "context target"@[0]); }
    assert("protection pct"@ != "eviction"@) by { assert("protection pct"@.len() != "eviction"@.len()); }
    assert("protection pct"@ != "auto-evict cold"@) by { assert("protection pct"@.len() != "auto-evict cold"@.len()); }
    assert("protection pct"@ != "compact at %"@) by { assert("protection pct"@.len() != "compact at %"@.len()); }
    assert("protection pct"@ != "band headroom %"@) by { assert("protection pct"@.len() != "band headroom %"@.len()); }
    assert("protection pct"@ != "protected turns"@) by { assert("protection pct"@.len() != "protected turns"@.len()); }
    assert("reduced motion"@ != "provider"@) by { assert("reduced motion"@.len() != "provider"@.len()); }
    assert("reduced motion"@ != "model"@) by { assert("reduced motion"@.len() != "model"@.len()); }
    assert("reduced motion"@ != "base_url"@) by { assert("reduced motion"@.len() != "base_url"@.len()); }
    assert("reduced motion"@ != "context target"@) by { assert("reduced motion"@[0] != "context target"@[0]); }
    assert("reduced motion"@ != "eviction"@) by { assert("reduced motion"@.len() != "eviction"@.len()); }
    assert("reduced motion"@ != "auto-evict cold"@) by { assert("reduced motion"@.len() != "auto-evict cold"@.len()); }
    assert("reduced motion"@ != "compact at %"@) by { assert("reduced motion"@.len() != "compact at %"@.len()); }
    assert("reduced motion"@ != "band headroom %"@) by { assert("reduced motion"@.len() != "band headroom %"@.len()); }
    assert("reduced motion"@ != "protected turns"@) by { assert("reduced motion"@.len() != "protected turns"@.len()); }
    assert("reduced motion"@ != "protection pct"@) by { assert("reduced motion"@[0] != "protection pct"@[0]); }
    assert("thinking"@ != "provider"@) by { assert("thinking"@[0] != "provider"@[0]); }
    assert("thinking"@ != "model"@) by { assert("thinking"@.len() != "model"@.len()); }
    assert("thinking"@ != "base_url"@) by { assert("thinking"@[0] != "base_url"@[0]); }
    assert("thinking"@ != "context target"@) by { assert("thinking"@.len() != "context target"@.len()); }
    assert("thinking"@ != "eviction"@) by { assert("thinking"@[0] != "eviction"@[0]); }
    assert("thinking"@ != "auto-evict cold"@) by { assert("thinking"@.len() != "auto-evict cold"@.len()); }
    assert("thinking"@ != "compact at %"@) by { assert("thinking"@.len() != "compact at %"@.len()); }
    assert("thinking"@ != "band headroom %"@) by { assert("thinking"@.len() != "band headroom %"@.len()); }
    assert("thinking"@ != "protected turns"@) by { assert("thinking"@.len() != "protected turns"@.len()); }
    assert("thinking"@ != "protection pct"@) by { assert("thinking"@.len() != "protection pct"@.len()); }
    assert("thinking"@ != "reduced motion"@) by { assert("thinking"@.len() != "reduced motion"@.len()); }
    assert("effort"@ != "provider"@) by { assert("effort"@.len() != "provider"@.len()); }
    assert("effort"@ != "model"@) by { assert("effort"@.len() != "model"@.len()); }
    assert("effort"@ != "base_url"@) by { assert("effort"@.len() != "base_url"@.len()); }
    assert("effort"@ != "context target"@) by { assert("effort"@.len() != "context target"@.len()); }
    assert("effort"@ != "eviction"@) by { assert("effort"@.len() != "eviction"@.len()); }
    assert("effort"@ != "auto-evict cold"@) by { assert("effort"@.len() != "auto-evict cold"@.len()); }
    assert("effort"@ != "compact at %"@) by { assert("effort"@.len() != "compact at %"@.len()); }
    assert("effort"@ != "band headroom %"@) by { assert("effort"@.len() != "band headroom %"@.len()); }
    assert("effort"@ != "protected turns"@) by { assert("effort"@.len() != "protected turns"@.len()); }
    assert("effort"@ != "protection pct"@) by { assert("effort"@.len() != "protection pct"@.len()); }
    assert("effort"@ != "reduced motion"@) by { assert("effort"@.len() != "reduced motion"@.len()); }
    assert("effort"@ != "thinking"@) by { assert("effort"@.len() != "thinking"@.len()); }
}

/// Two configurations whose model differs copy different values from the
/// model row, and likewise for the provider row: each row's copy follows its
/// own field and no other.
pub proof fn lemma_copy_follows_its_own_field(c1: ConfigSnapshot, c2: ConfigSnapshot)
    ensures
        (live_write(c1, "model"@) == live_write(c2, "model"@)) <==> c1.model@ == c2.model@,
        (live_write(c1, "provider"@) == live_write(c2, "provider"@)) <==> c1.provider@ == c2.provider@,
{
    lemma_copy_writes_the_displayed_field(c1);
    lemma_copy_writes_the_displayed_field(c2);
}

/// Committing a string row's live text as an edit writes the value that
/// copying the row writes.
pub proof fn lemma_string_edit_of_live_text_matches_copy(c: ConfigSnapshot, label: Seq<char>)
    requires
        label == "provider"@ || label == "model"@,
    ensures
        toml_target(label) matches Some((k, t)) && live_write(c, label) matches Some((k2, v))
            && buffer_value(t, v->Str_0) == Some(v),
{
}

/// The (key, value) toggling a boolean row writes: the row's key with the
/// live value flipped; `None` for a row that is not a switch.
pub open spec fn toggle_of(c: ConfigSnapshot, label: Seq<char>) -> Option<(Seq<char>, bool)> {
    if label == "eviction"@ {
        Some(("eviction.enabled"@, !c.eviction_enabled))
    } else if label == "auto-evict cold"@ {
        Some(("economy.auto_evict_cold"@, !c.auto_evict_cold))
    } else if label == "reduced motion"@ {
        Some(("reduced_motion"@, !c.reduced_motion))
    } else if label == "thinking"@ {
        Some(("thinking.enabled"@, !c.thinking_enabled))
    } else if label == "companion"@ {
        Some(("companion.enabled"@, !c.companion_enabled))
    } else {
        None
    }
}

/// The write that toggling the row under the cursor makes.
pub fn toggle_write(cfg: &ConfigSnapshot, label: &str) -> (r: Option<(String, TomlValue)>)
    ensures
        match toggle_of(*cfg, label@) {
            Some((k, b)) => r matches Some((key, value)) && key@ == k && value == TomlValue::Bool(b),
            None => r is None,
        },
{
    if eq_str(label, "eviction") {
        write_of("eviction.enabled", TomlValue::Bool(!cfg.eviction_enabled))
    } else if eq_str(label, "auto-evict cold") {
        write_of("economy.auto_evict_cold", TomlValue::Bool(!cfg.auto_evict_cold))
    } else if eq_str(label, "reduced motion") {
        write_of("reduced_motion", TomlValue::Bool(!cfg.reduced_motion))
    } else if eq_str(label, "thinking") {
        write_of("thinking.enabled", TomlValue::Bool(!cfg.thinking_enabled))
    } else if eq_str(label, "companion") {
        write_of("companion.enabled", TomlValue::Bool(!cfg.companion_enabled))
    } else {
        None
    }
}

/// Toggling a switch row writes the key that copying the row writes, with
/// the opposite of the value copying writes.
pub proof fn lemma_toggle_flips_the_copied_value(c: ConfigSnapshot, label: Seq<char>)
    requires
        live_write(c, label) is Some,
    ensures
        toggle_of(c, label) matches Some((k, b)) ==> (live_write(c, label) matches Some((k2, v)) && k2 == k && v
            == TomlValueView::Bool(!b)),
{
    reveal_strlit("eviction");
    reveal_strlit("auto-evict cold");
    reveal_strlit("reduced motion");
    reveal_strlit("thinking");
    reveal_strlit("companion");
    reveal_strlit("provider");
    reveal_strlit("model");
    reveal_strlit("base_url");
    reveal_strlit("context target");
    reveal_strlit("compact at %");
    reveal_strlit("band headroom %");
    reveal_strlit("protected turns");
    reveal_strlit("protection pct");
    reveal_strlit("effort");
    if label == "eviction"@ {
        assert(label[0] != "provider"@[0] && label[0] != "base_url"@[0]);
        assert(live_write(c, label) == Some(("eviction.enabled"@, TomlValueView::Bool(c.eviction_enabled))));
    } else if label == "thinking"@ {
        assert(label[0] != "provider"@[0] && label[0] != "base_url"@[0] && label[0] != "eviction"@[0]);
        assert(live_write(c, label) == Some(("thinking.enabled"@, TomlValueView::Bool(c.thinking_enabled))));
    } else if label == "reduced motion"@ {
        assert(label[0] != "context target"@[0] && label[0] != "protection pct"@[0]);
        assert(live_write(c, label) == Some(("reduced_motion"@, TomlValueView::Bool(c.reduced_motion))));
    } else if label == "auto-evict cold"@ {
        assert(label[0] != "band headroom %"@[0] && label[0] != "protected turns"@[0]);
        assert(live_write(c, label) == Some(("economy.auto_evict_cold"@, TomlValueView::Bool(c.auto_evict_cold))));
    } else if label == "companion"@ {
        assert(label.len() != "provider"@.len());
        assert(label.len() != "model"@.len());
        assert(label.len() != "base_url"@.len());
        assert(label.len() != "context target"@.len());
        assert(label.len() != "eviction"@.len());
        assert(label.len() != "auto-evict cold"@.len());
        assert(label.len() != "compact at %"@.len());
        assert(label.len() != "band headroom %"@.len());
        assert(label.len() != "protected turns"@.len());
        assert(label.len() != "protection pct"@.len());
        assert(label.len() != "reduced motion"@.len());
        assert(label.len() != "thinking"@.len());
        assert(label.len() != "effort"@.len());
        assert(live_write(c, label) is None);
    } else {
        assert(toggle_of(c, label) is None);
    }
}

/// The secret a key prompt commits: the typed key trimmed; nothing for a
/// blank entry, which aborts the prompt rather than mark the provider ready.
pub fn key_prompt_commit(buffer: &str) -> (r: Option<String>)
    ensures
        trim(buffer@).len() == 0 ==> r is None,
        trim(buffer@).len() > 0 ==> (r matches Some(k) && k@ == trim(buffer@)),
{
    let t = trim_chars(&chars_of(buffer));
    if t.len() == 0 {
        None
    } else {
        Some(string_of(&t))
    }
}

/// The context-assembly policy derived from the economy config.
#[derive(Debug, Clone, Copy, PartialEq, Eq, Structural)]
pub struct ContextPolicy {
    pub token_ceiling: Option<u64>,
    pub auto_evict_cold: bool,
    pub compact_threshold: Option<u64>,
}

/// Compaction starts at `pct` percent of the token target (the product
/// saturating at `u64::MAX`); 0 percent disables it.
pub open spec fn compact_threshold(target: u64, pct: u8) -> Option<u64> {
    if pct == 0 {
        None
    } else {
        let p: int = target * pct;
        Some(((if p > u64::MAX { u64::MAX as int } else { p }) / 100) as u64)
    }
}

/// Map the economy config onto the context policy for a token target. The
/// token ceiling is never set from here.
pub fn policy_from_config(compact_threshold_pct: u8, auto_evict_cold: bool, target: u64) -> (r: ContextPolicy)
    ensures
        r.token_ceiling is None,
        r.auto_evict_cold == auto_evict_cold,
        r.compact_threshold == compact_threshold(target, compact_threshold_pct),
{
    let ct = if compact_threshold_pct == 0 {
        None
    } else {
        let p: u64 = match target.checked_mul(compact_threshold_pct as u64) {
            Some(p) => p,
            None => u64::MAX,
        };
        Some(p / 100)
    };
    ContextPolicy { token_ceiling: None, auto_evict_cold, compact_threshold: ct }
}

/// A requested reasoning effort.
#[derive(Debug, Clone, Copy, PartialEq, Eq, Structural)]
pub enum EffortLevel {
    Low,
    Medium,
    High,
    Max,
}

/// How a turn asks the model to think.
#[derive(Debug, Clone, Copy, PartialEq, Eq, Structural)]
pub enum ThinkingMode {
    Off,
    Auto,
    Effort(EffortLevel),
}

/// The effort an effort name selects; an unknown name reads as high.
pub open spec fn effort_of(e: Seq<char>) -> EffortLevel {
    if e == "low"@ {
        EffortLevel::Low
    } else if e == "medium"@ {
        EffortLevel::Medium
    } else if e == "high"@ {
        EffortLevel::High
    } else if e == "max"@ {
        EffortLevel::Max
    } else {
        EffortLevel::High
    }
}

/// The thinking mode: off when the model cannot think or thinking is
/// disabled, where a local Ollama provider counts as enabled unless a config
/// layer set the flag; else the configured effort, or automatic.
pub open spec fn thinking_mode(
    enabled: bool,
    effort: Option<Seq<char>>,
    enabled_is_default: bool,
    provider_is_ollama_local: bool,
    model_can_think: bool,
) -> ThinkingMode {
    let on = if enabled_is_default && provider_is_ollama_local {
        true
    } else {
        enabled
    };
    if !model_can_think || !on {
        ThinkingMode::Off
    } else {
        match effort {
            None => ThinkingMode::Auto,
            Some(e) => ThinkingMode::Effort(effort_of(e)),
        }
    }
}

/// Resolve the thinking mode from the `[thinking]` config (`enabled`,
/// `effort`), whether `enabled` came from no config layer at all, whether
/// the provider canonicalizes to `ollama-local`, and whether the model
/// supports thinking at all.
pub fn resolve_thinking(
    enabled: bool,
    effort: Option<&str>,
    enabled_is_default: bool,
    provider_is_ollama_local: bool,
    model_can_think: bool,
) -> (r: ThinkingMode)
    ensures
        r == thinking_mode(
            enabled,
            match effort {
                Some(e) => Some(e@),
                None => None,
            },
            enabled_is_default,
            provider_is_ollama_local,
            model_can_think,
        ),
{
    let on = if enabled_is_default && provider_is_ollama_local {
        true
    } else {
        enabled
    };
    if !model_can_think || !on {
        return ThinkingMode::Off;
    }
    match effort {
        None => ThinkingMode::Auto,
        Some(e) => {
            let level = if eq_str(e, "low") {
                EffortLevel::Low
            } else if eq_str(e, "medium") {
                EffortLevel::Medium
            } else if eq_str(e, "high") {
                EffortLevel::High
            } else if eq_str(e, "max") {
                EffortLevel::Max
            } else {
                EffortLevel::High
            };
            ThinkingMode::Effort(level)
        },
    }
}

/// A partial `[thinking]` override.
#[derive(Debug, Clone, PartialEq, Eq)]
pub struct PartialThinking {
    pub enabled: Option<bool>,
    pub effort: Option<String>,
}

/// `char::to_ascii_lowercase`.
pub open spec fn ascii_lower(c: char) -> char {
    if 'A' <= c <= 'Z' {
        ((c as u32) + 32) as char
    } else {
        c
    }
}

/// `str::to_ascii_lowercase` over characters.
pub open spec fn ascii_lowercase(s: Seq<char>) -> Seq<char> {
    s.map_values(|c: char| ascii_lower(c))
}

fn to_ascii_lowercase(v: &Vec<char>) -> (r: Vec<char>)
    ensures
        r@ == ascii_lowercase(v@),
{
    let mut out: Vec<char> = Vec::new();
    let mut i: usize = 0;
    while i < v.len()
        invariant
            i <= v@.len(),
            out@ =~= ascii_lowercase(v@.take(i as int)),
        decreases v@.len() - i,
    {
        let c = v[i];
        let d = if 'A' <= c && c <= 'Z' {
            let u: u32 = (c as u32) + 32;
            assert(u <= 0x7a);
            let b: u8 = u as u8;
            b as char
        } else {
            c
        };
        assert(d == ascii_lower(c));
        out.push(d);
        i += 1;
        assert(out@ =~= ascii_lowercase(v@.take(i as int)));
    }
    assert(v@.take(i as int) =~= v@);
    out
}

/// The override a `ZOID_THINKING` value asks for: (enabled, effort), from
/// the trimmed, ASCII-lowercased value; nothing for an empty or unknown
/// value.
pub open spec fn thinking_env(val: Seq<char>) -> Option<(Option<bool>, Option<Seq<char>>)> {
    let t = ascii_lowercase(trim(val));
    if trim(val).len() == 0 {
        None
    } else if t == "off"@ || t == "disabled"@ || t == "false"@ || t == "0"@ {
        Some((Some(false), None))
    } else if t == "auto"@ || t == "on"@ || t == "true"@ || t == "1"@ {
        Some((Some(true), None))
    } else if t == "low"@ || t == "medium"@ || t == "high"@ || t == "max"@ {
        Some((Some(true), Some(t)))
    } else {
        None
    }
}

/// Parse a `ZOID_THINKING` env value into a `[thinking]` override; `None`
/// for an empty or unknown value.
pub fn parse_thinking_env(val: &str) -> (r: Option<PartialThinking>)
    ensures
        match thinking_env(val@) {
            Some((en, ef)) => r matches Some(p) && p.enabled == en && match ef {
                Some(e) => p.effort matches Some(s) && s@ == e,
                None => p.effort is None,
            },
            None => r is None,
        },
{
    let t0 = trim_chars(&chars_of(val));
    if t0.len() == 0 {
        return None;
    }
    let t = to_ascii_lowercase(&t0);
    let is = |w: &str| -> (b: bool)
        ensures
            b == (t@ == w@),
        { chars_eq(&t, &chars_of(w)) };
    if is("off") || is("disabled") || is("false") || is("0") {
        Some(PartialThinking { enabled: Some(false), effort: None })
    } else if is("auto") || is("on") || is("true") || is("1") {
        Some(PartialThinking { enabled: Some(true), effort: None })
    } else if is("low") || is("medium") || is("high") || is("max") {
        Some(PartialThinking { enabled: Some(true), effort: Some(string_of(&t)) })
    } else {
        None
    }
}

/// A boolean environment switch is on: `1`, `true` or `yes` once trimmed.
pub open spec fn switch_on(v: Seq<char>) -> bool {
    let t = trim(v);
    t == "1"@ || t == "true"@ || t == "yes"@
}

/// The config layer read from the environment, above every config file.
#[derive(Debug, Clone, PartialEq, Eq)]
pub struct EnvOverrides {
    pub model: Option<String>,
    pub thinking: Option<PartialThinking>,
    pub context_target: Option<u64>,
    pub reduced_motion: Option<bool>,
    pub companion_port: Option<u16>,
    pub companion_open: Option<bool>,
    pub companion_enabled: Option<bool>,
    pub eviction_enabled: Option<bool>,
}

fn switch_value(v: &str) -> (r: bool)
    ensures
        r == switch_on(v@),
{
    let t = trim_chars(&chars_of(v));
    chars_eq(&t, &chars_of("1")) || chars_eq(&t, &chars_of("true")) || chars_eq(&t, &chars_of("yes"))
}

fn switch_of(env: &Env, name: &str) -> (r: Option<bool>)
    ensures
        match env.lookup(name@) {
            Some(v) => r == Some(switch_on(v)),
            None => r is None,
        },
{
    match env.get(name) {
        Some(v) => Some(switch_value(v.as_str())),
        None => None,
    }
}

/// Read the environment layer of the config: `ZOID_MODEL` (non-empty) sets
/// the model; `ZOID_THINKING` the thinking override it parses to;
/// `ZOID_CONTEXT_CEILING` a positive token target; `ZOID_REDUCED_MOTION`
/// (non-empty) turns reduced motion on; `ZOID_COMPANION_PORT` the companion
/// port; `ZOID_COMPANION_OPEN`, `ZOID_COMPANION_ENABLED` and
/// `ZOID_EVICTION_ENABLED` their switches, on for `1`, `true` or `yes`.
/// Numbers are read trimmed; a value that does not parse sets nothing.
pub fn env_overrides(env: &Env) -> (r: EnvOverrides)
    ensures
        match env.lookup("ZOID_MODEL"@) {
            Some(m) if m.len() > 0 => r.model matches Some(s) && s@ == m,
            _ => r.model is None,
        },
        match env.lookup("ZOID_THINKING"@) {
            Some(v) => match thinking_env(v) {
                Some((en, ef)) => r.thinking matches Some(p) && p.enabled == en && match ef {
                    Some(e) => p.effort matches Some(s) && s@ == e,
                    None => p.effort is None,
                },
                None => r.thinking is None,
            },
            None => r.thinking is None,
        },
        match env.lookup("ZOID_CONTEXT_CEILING"@) {
            Some(v) => match parse_unsigned(trim(v), u64::MAX as nat) {
                Some(n) if n > 0 => r.context_target == Some(n as u64),
                _ => r.context_target is None,
            },
            None => r.context_target is None,
        },
        match env.lookup("ZOID_REDUCED_MOTION"@) {
            Some(v) if v.len() > 0 => r.reduced_motion == Some(true),
            _ => r.reduced_motion is None,
        },
        match env.lookup("ZOID_COMPANION_PORT"@) {
            Some(v) => match parse_unsigned(trim(v), u16::MAX as nat) {
                Some(n) => r.companion_port == Some(n as u16),
                None => r.companion_port is None,
            },
            None => r.companion_port is None,
        },
        match env.lookup("ZOID_COMPANION_OPEN"@) {
            Some(v) => r.companion_open == Some(switch_on(v)),
            None => r.companion_open is None,
        },
        match env.lookup("ZOID_COMPANION_ENABLED"@) {
            Some(v) => r.companion_enabled == Some(switch_on(v)),
            None => r.companion_enabled is None,
        },
        match env.lookup("ZOID_EVICTION_ENABLED"@) {
            Some(v) => r.eviction_enabled == Some(switch_on(v)),
            None => r.eviction_enabled is None,
        },
{
    let model = match env.get("ZOID_MODEL") {
        Some(m) => {
            if chars_of(m.as_str()).len() > 0 {
                Some(m)
            } else {
                None
            }
        },
        None => None,
    };
    let thinking = match env.get("ZOID_THINKING") {
        Some(v) => parse_thinking_env(v.as_str()),
        None => None,
    };
    let context_target = match env.get("ZOID_CONTEXT_CEILING") {
        Some(v) => match parse_u64(&trim_chars(&chars_of(v.as_str()))) {
            Some(n) => {
                if n > 0 {
                    Some(n)
                } else {
                    None
                }
            },
            None => None,
        },
        None => None,
    };
    let reduced_motion = match env.get("ZOID_REDUCED_MOTION") {
        Some(v) => {
            if chars_of(v.as_str()).len() > 0 {
                Some(true)
            } else {
                None
            }
        },
        None => None,
    };
    let companion_port = match env.get("ZOID_COMPANION_PORT") {
        Some(v) => parse_u16(&trim_chars(&chars_of(v.as_str()))),
        None => None,
    };
    EnvOverrides {
        model,
        thinking,
        context_target,
        reduced_motion,
        companion_port,
        companion_open: switch_of(env, "ZOID_COMPANION_OPEN"),
        companion_enabled: switch_of(env, "ZOID_COMPANION_ENABLED"),
        eviction_enabled: switch_of(env, "ZOID_EVICTION_ENABLED"),
    }
}

/// Whether the onboarding wizard shows at startup: only for a first-time
/// user whose secret store opened, never for local Ollama (keyless), always
/// when no provider is chosen, else when the provider's key is missing.
pub fn wizard_needed(
    first_time_user: bool,
    provider: &str,
    provider_is_ollama_local: bool,
    has_key: bool,
    secrets_available: bool,
) -> (r: bool)
    ensures
        r == (first_time_user && secrets_available && !provider_is_ollama_local && (trim(provider@).len()
            == 0 || !has_key)),
{
    if !first_time_user || !secrets_available {
        return false;
    }
    if provider_is_ollama_local {
        return false;
    }
    if trim_chars(&chars_of(provider)).len() == 0 {
        return true;
    }
    !has_key
}

/// The secret env name a provider needs, from whether its registry entry
/// asks for a key and its family; `None` when it needs no key.
pub open spec fn key_env(requires_key: bool, family: Option<Seq<char>>) -> Option<Seq<char>> {
    if !requires_key {
        None
    } else {
        match family {
            Some(f) => if f == "opencode-go"@ || f == "opencode-zen"@ {
                Some("OPENCODE_GO_API_KEY"@)
            } else if f == "anthropic"@ {
                Some("ANTHROPIC_API_KEY"@)
            } else if f == "zai"@ {
                Some("ZAI_API_KEY"@)
            } else {
                Some("OLLAMA_API_KEY"@)
            },
            None => Some("OLLAMA_API_KEY"@),
        }
    }
}

/// The secret env name a provider id needs, or `None` if it needs no key.
/// `requires_key` is whether the registry entry has a key URL (unknown ids
/// require one); `family` is the entry's family, if the id is known.
pub fn key_env_for(requires_key: bool, family: Option<&str>) -> (r: Option<String>)
    ensures
        match key_env(
            requires_key,
            match family {
                Some(f) => Some(f@),
                None => None,
            },
        ) {
            Some(k) => r matches Some(s) && s@ == k,
            None => r is None,
        },
{
    if !requires_key {
        return None;
    }
    let name = match family {
        Some(f) => {
            if eq_str(f, "opencode-go") || eq_str(f, "opencode-zen") {
                "OPENCODE_GO_API_KEY"
            } else if eq_str(f, "anthropic") {
                "ANTHROPIC_API_KEY"
            } else if eq_str(f, "zai") {
                "ZAI_API_KEY"
            } else {
                "OLLAMA_API_KEY"
            }
        },
        None => "OLLAMA_API_KEY",
    };
    Some(String::from_str(name))
}

/// The label provider selection reports, and the secret it reads, for a
/// provider family (unknown families are served as Ollama).
pub open spec fn family_selection(family: Option<Seq<char>>) -> (Seq<char>, Seq<char>) {
    match family {
        Some(f) => if f == "opencode-go"@ {
            ("opencode-go"@, "OPENCODE_GO_API_KEY"@)
        } else if f == "opencode-zen"@ {
            ("opencode-zen"@, "OPENCODE_GO_API_KEY"@)
        } else if f == "anthropic"@ {
            ("anthropic"@, "ANTHROPIC_API_KEY"@)
        } else if f == "zai"@ {
            ("zai"@, "ZAI_API_KEY"@)
        } else {
            ("ollama"@, "OLLAMA_API_KEY"@)
        },
        None => ("ollama"@, "OLLAMA_API_KEY"@),
    }
}

/// Which provider to build: its label, and the secret it needs (`None`
/// for local Ollama, which needs no key).
#[derive(Debug, Clone, PartialEq, Eq)]
pub struct ProviderChoice {
    pub label: String,
    pub key_env: Option<String>,
}

/// Choose the provider for the configured id: local Ollama (by canonical
/// id) needs no key; any other is served by its registry family (`None`
/// for an unknown id).
pub fn provider_choice(is_ollama_local: bool, family: Option<&str>) -> (r: ProviderChoice)
    ensures
        is_ollama_local ==> r.label@ == "ollama"@ && r.key_env is None,
        !is_ollama_local ==> {
            let (label, key) = family_selection(
                match family {
                    Some(f) => Some(f@),
                    None => None,
                },
            );
            r.label@ == label && (r.key_env matches Some(k) && k@ == key)
        },
{
    if is_ollama_local {
        return ProviderChoice { label: String::from_str("ollama"), key_env: None };
    }
    let (label, key) = match family {
        Some(f) => {
            if eq_str(f, "opencode-go") {
                ("opencode-go", "OPENCODE_GO_API_KEY")
            } else if eq_str(f, "opencode-zen") {
                ("opencode-zen", "OPENCODE_GO_API_KEY")
            } else if eq_str(f, "anthropic") {
                ("anthropic", "ANTHROPIC_API_KEY")
            } else if eq_str(f, "zai") {
                ("zai", "ZAI_API_KEY")
            } else {
                ("ollama", "OLLAMA_API_KEY")
            }
        },
        None => ("ollama", "OLLAMA_API_KEY"),
    };
    ProviderChoice { label: String::from_str(label), key_env: Some(String::from_str(key)) }
}

/// The credential for a secret: a non-empty environment variable of that
/// name wins, else the secret store's value.
pub fn credential(env_value: Option<&str>, stored: Option<String>) -> (r: Option<String>)
    ensures
        match env_value {
            Some(v) if v@.len() > 0 => r matches Some(s) && s@ == v@,
            _ => r == stored,
        },
{
    if let Some(v) = env_value {
        if chars_of(v).len() > 0 {
            return Some(String::from_str(v));
        }
    }
    stored
}

/// Provider selection reads exactly the secret the onboarding wizard
/// stores for a provider that needs a key.
pub proof fn lemma_selection_reads_the_stored_key(family: Option<Seq<char>>)
    ensures
        key_env(true, family) == Some(family_selection(family).1),
{
}

/// The base URL handed to a provider: an explicit non-blank override wins,
/// else the registry default, else empty.
pub fn effective_base_url(base_url: Option<&str>, registry_default: Option<&str>) -> (r: String)
    ensures
        match base_url {
            Some(u) if trim(u@).len() > 0 => r@ == u@,
            _ => match registry_default {
                Some(d) => r@ == d@,
                None => r@ == Seq::<char>::empty(),
            },
        },
{
    proof {
        reveal_strlit("");
    }
    if let Some(u) = base_url {
        if trim_chars(&chars_of(u)).len() > 0 {
            return String::from_str(u);
        }
    }
    match registry_default {
        Some(d) => String::from_str(d),
        None => String::from_str(""),
    }
}

/// The TOML write for `base_url` when a provider is selected: its registry
/// default endpoint, or `Unset` when it has none.
pub fn base_url_write_for(registry_default: Option<&str>) -> (r: TomlValue)
    ensures
        match registry_default {
            Some(d) => r matches TomlValue::Str(s) && s@ == d@,
            None => r matches TomlValue::Unset,
        },
{
    match registry_default {
        Some(d) => TomlValue::Str(String::from_str(d)),
        None => TomlValue::Unset,
    }
}

/// The drawer's provider label: the configured provider when a key was
/// found, else `offline` (the fallback provider actually used).
pub fn provider_label(provider_name: &str, has_key: bool) -> (r: String)
    ensures
        has_key ==> r@ == provider_name@,
        !has_key ==> r@ == "offline"@,
{
    if has_key {
        String::from_str(provider_name)
    } else {
        String::from_str("offline")
    }
}

/// Index of the first `${` at or after `i`, or `s.len()`.
pub open spec fn ref_open(s: Seq<char>, i: int) -> int
    decreases s.len() - i,
{
    if i + 1 >= s.len() {
        s.len() as int
    } else if s[i] == '$' && s[i + 1] == '{' {
        i
    } else {
        ref_open(s, i + 1)
    }
}

/// Index of the first `}` at or after `i`, or `s.len()`.
pub open spec fn ref_close(s: Seq<char>, i: int) -> int
    decreases s.len() - i,
{
    if i >= s.len() {
        s.len() as int
    } else if s[i] == '}' {
        i
    } else {
        ref_close(s, i + 1)
    }
}

pub proof fn lemma_ref_open(s: Seq<char>, i: int)
    requires
        0 <= i <= s.len(),
    ensures
        i <= ref_open(s, i) <= s.len(),
        ref_open(s, i) < s.len() ==> ref_open(s, i) + 1 < s.len() && s[ref_open(s, i)] == '$' && s[ref_open(s, i) + 1] == '{',
    decreases s.len() - i,
{
    if i + 1 < s.len() && !(s[i] == '$' && s[i + 1] == '{') {
        lemma_ref_open(s, i + 1);
    }
}

pub proof fn lemma_ref_close(s: Seq<char>, i: int)
    requires
        0 <= i <= s.len(),
    ensures
        i <= ref_close(s, i) <= s.len(),
    decreases s.len() - i,
{
    if i < s.len() && s[i] != '}' {
        lemma_ref_close(s, i + 1);
    }
}

/// Some `${VAR}` from position `i` on names a variable the environment does
/// not bind; an unterminated `${` ends the scan.
pub open spec fn unset_ref_from(s: Seq<char>, env: Seq<(Seq<char>, Seq<char>)>, i: int) -> bool
    decreases s.len() - i,
{
    if i < 0 || i > s.len() {
        false
    } else {
        let p = ref_open(s, i);
        proof {
            lemma_ref_open(s, i);
        }
        if p >= s.len() {
            false
        } else {
            let e = ref_close(s, p + 2);
            proof {
                lemma_ref_close(s, p + 2);
            }
            if e >= s.len() {
                false
            } else if crate::paths::env_lookup(env, s.subrange(p + 2, e)) is None {
                true
            } else {
                unset_ref_from(s, env, e + 1)
            }
        }
    }
}

/// True if `value` references at least one `${VAR}` whose variable is unset
/// in `env`. A literal (no `${}`) is never flagged.
pub fn env_ref_unset(value: &str, env: &Env) -> (r: bool)
    ensures
        r == unset_ref_from(value@, env.pairs(), 0),
{
    let s = chars_of(value);
    let n = s.len();
    let mut i: usize = 0;
    loop
        invariant
            n == s@.len(),
            s@ == value@,
            i <= n,
            unset_ref_from(s@, env.pairs(), 0) == unset_ref_from(s@, env.pairs(), i as int),
        decreases n - i,
    {
        proof {
            lemma_ref_open(s@, i as int);
        }
        let mut p: usize = i;
        while p < n && p + 1 < n && !(s[p] == '$' && s[p + 1] == '{')
            invariant
                i <= p <= n,
                n == s@.len(),
                ref_open(s@, p as int) == ref_open(s@, i as int),
            decreases n - p,
        {
            p += 1;
        }
        if p >= n || p + 1 >= n {
            return false;
        }
        assert(p == ref_open(s@, i as int));
        proof {
            lemma_ref_close(s@, p + 2);
        }
        let mut e: usize = p + 2;
        while e < n && s[e] != '}'
            invariant
                p + 2 <= e <= n,
                n == s@.len(),
                ref_close(s@, e as int) == ref_close(s@, p + 2),
            decreases n - e,
        {
            e += 1;
        }
        if e >= n {
            return false;
        }
        assert(e == ref_close(s@, p + 2));
        let name = string_of(&crate::text::sub_chars(&s, p + 2, e));
        if env.get(name.as_str()).is_none() {
            return true;
        }
        i = e + 1;
    }
}

/// The hint when session or worktree management is blocked: the running
/// subagents (and how to stop them), else the unfinished turn.
pub fn busy_block_hint(in_flight: usize) -> (r: String)
    ensures
        in_flight == 1 ==> r@ == "1 subagent running — press Esc to kill them or wait for completion"@,
        in_flight > 1 ==> r@ == decimal(in_flight as nat) + " subagents running — press Esc to kill them or wait for completion"@,
        in_flight == 0 ==> r@ == "finish the current turn first"@,
{
    if in_flight == 1 {
        String::from_str("1 subagent running — press Esc to kill them or wait for completion")
    } else if in_flight > 1 {
        let mut m = decimal_chars(in_flight as u64);
        extend_str(&mut m, " subagents running — press Esc to kill them or wait for completion");
        string_of(&m)
    } else {
        String::from_str("finish the current turn first")
    }
}

/// The config file a single-key write goes to: the project's
/// `./.zoid/config.toml` when saving to the repository, else `config.toml`
/// in the user's config directory.
pub fn config_write_path(to_repo: bool, config_dir: &str) -> (r: String)
    ensures
        to_repo ==> r@ == "./.zoid/config.toml"@,
        !to_repo ==> r@ == crate::paths::path_join(config_dir@, "config.toml"@),
{
    if to_repo {
        String::from_str("./.zoid/config.toml")
    } else {
        crate::paths::join(config_dir, "config.toml")
    }
}

/// What a reloaded config asks of the companion server.
#[derive(Debug, Clone, Copy, PartialEq, Eq, Structural)]
pub enum CompanionChange {
    Start,
    Stop,
    Keep,
}

/// Start the companion when the config enables it and it is not running,
/// stop it when the config disables it and it runs, else leave it.
pub fn companion_change(enabled: bool, running: bool) -> (r: CompanionChange)
    ensures
        r == if enabled && !running {
            CompanionChange::Start
        } else if !enabled && running {
            CompanionChange::Stop
        } else {
            CompanionChange::Keep
        },
{
    if enabled && !running {
        CompanionChange::Start
    } else if !enabled && running {
        CompanionChange::Stop
    } else {
        CompanionChange::Keep
    }
}

/// The model a session runs: the configured one, or the default when the
/// config names none.
pub fn live_model(configured: &str, default_model: &str) -> (r: String)
    ensures
        configured@.len() == 0 ==> r@ == default_model@,
        configured@.len() > 0 ==> r@ == configured@,
{
    if chars_of(configured).len() == 0 {
        String::from_str(default_model)
    } else {
        String::from_str(configured)
    }
}

} // verus!
