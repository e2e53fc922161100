//! A plugin's declared install effects: which this version refuses before
//! anything is written, which it records as applied, and which it hands
//! back to the caller as safe to apply.

use crate::mode_wizard::{ProvenanceEntry, ScannedFile, UpstreamScan};
use crate::text::{
    chars_eq, chars_of, decimal, decimal_chars, extend_chars, extend_str, string_of, sub_chars, trim, trim_chars,
};
use vstd::prelude::*;

verus! {

/// How risky an effect is.
#[derive(Debug, Clone, Copy, PartialEq, Eq, Structural)]
pub enum RiskTier {
    Safe,
    Dangerous,
}

/// An effect a plugin's install recipe declares.
#[derive(Debug, Clone, PartialEq, Eq)]
pub enum Effect {
    Activate,
    OnboardingHint { text: String },
    SetConfig { key: String, value: String },
}

/// An effect recorded in the plugin sidecar as applied.
#[derive(Debug, Clone, PartialEq, Eq)]
pub enum AppliedEffect {
    Activate,
    OnboardingHint { text: String },
}

/// Why an install was refused: the effect at this index needs a
/// confirmation this version cannot ask for, or sets config, which this
/// version never applies.
#[derive(Debug, Clone, Copy, PartialEq, Eq, Structural)]
pub enum GateRefusal {
    NeedsConfirmation(usize),
    ConfigEffect(usize),
}

/// The effect is refused: dangerous, or any config write.
pub open spec fn gated(e: Effect, risk: RiskTier) -> bool {
    risk == RiskTier::Dangerous || e is SetConfig
}

/// Index of the first refused effect at or after `i`, or the length.
pub open spec fn first_gated_from(effects: Seq<Effect>, risks: Seq<RiskTier>, i: int) -> int
    decreases effects.len() - i,
{
    if i < 0 || i >= effects.len() {
        effects.len() as int
    } else if gated(effects[i], risks[i]) {
        i
    } else {
        first_gated_from(effects, risks, i + 1)
    }
}

/// Whether an install may go on: yes when no effect is refused, else the first
/// refused effect, as needing confirmation when it is dangerous and as a
/// config write otherwise.
pub open spec fn gate_verdict(effects: Seq<Effect>, risks: Seq<RiskTier>) -> Result<(), GateRefusal> {
    let i = first_gated_from(effects, risks, 0);
    if i >= effects.len() {
        Ok(())
    } else if risks[i] == RiskTier::Dangerous {
        Err(GateRefusal::NeedsConfirmation(i as usize))
    } else {
        Err(GateRefusal::ConfigEffect(i as usize))
    }
}

/// Check an install plan's effects (`risks[i]` is the risk of
/// `effects[i]`) before anything is written: the first dangerous effect or
/// config write refuses the install, a dangerous one as needing
/// confirmation.
pub fn effect_gate(effects: &Vec<Effect>, risks: &Vec<RiskTier>) -> (r: Result<(), GateRefusal>)
    requires
        risks@.len() == effects@.len(),
    ensures
        r == gate_verdict(effects@, risks@),
        r is Ok <==> first_gated_from(effects@, risks@, 0) == effects@.len(),
        r matches Err(GateRefusal::NeedsConfirmation(i)) ==> i == first_gated_from(effects@, risks@, 0)
            && risks@[i as int] == RiskTier::Dangerous,
        r matches Err(GateRefusal::ConfigEffect(i)) ==> i == first_gated_from(effects@, risks@, 0)
            && risks@[i as int] != RiskTier::Dangerous && effects@[i as int] is SetConfig,
        first_gated_from(effects@, risks@, 0) < effects@.len() ==> r is Err,
{
    let mut i: usize = 0;
    while i < effects.len()
        invariant
            i <= effects@.len(),
            risks@.len() == effects@.len(),
            first_gated_from(effects@, risks@, 0) == first_gated_from(effects@, risks@, i as int),
        decreases effects@.len() - i,
    {
        if risks[i] == RiskTier::Dangerous {
            return Err(GateRefusal::NeedsConfirmation(i));
        }
        match &effects[i] {
            Effect::SetConfig { .. } => {
                return Err(GateRefusal::ConfigEffect(i));
            },
            _ => {},
        }
        i += 1;
    }
    Ok(())
}

/// What the sidecar records for an accepted effect.
pub open spec fn applied_of(e: Effect) -> Option<AppliedEffect> {
    match e {
        Effect::Activate => Some(AppliedEffect::Activate),
        Effect::OnboardingHint { text } => Some(AppliedEffect::OnboardingHint { text }),
        Effect::SetConfig { .. } => None,
    }
}

/// The applied-effect records for accepted effects (no config
/// writes among them), in order.
pub fn applied_effects(effects: &Vec<Effect>) -> (r: Vec<AppliedEffect>)
    requires
        forall|i: int| 0 <= i < effects@.len() ==> !(#[trigger] effects@[i] is SetConfig),
    ensures
        r@.len() == effects@.len(),
        forall|i: int| 0 <= i < effects@.len() ==> applied_of(#[trigger] effects@[i]) == Some(r@[i]),
{
    let mut out: Vec<AppliedEffect> = Vec::new();
    let mut i: usize = 0;
    while i < effects.len()
        invariant
            i <= effects@.len(),
            out@.len() == i,
            forall|j: int| 0 <= j < effects@.len() ==> !(#[trigger] effects@[j] is SetConfig),
            forall|j: int| 0 <= j < i ==> applied_of(#[trigger] effects@[j]) == Some(out@[j]),
        decreases effects@.len() - i,
    {
        let a = match &effects[i] {
            Effect::Activate => AppliedEffect::Activate,
            Effect::OnboardingHint { text } => AppliedEffect::OnboardingHint { text: text.clone() },
            Effect::SetConfig { .. } => {
                assert(effects@[i as int] is SetConfig);
                AppliedEffect::Activate
            },
        };
        out.push(a);
        i += 1;
    }
    out
}

/// The effects whose risk is safe, in their declared order.
pub open spec fn safe_only(effects: Seq<Effect>, risks: Seq<RiskTier>) -> Seq<Effect>
    decreases effects.len(),
{
    if effects.len() == 0 {
        Seq::empty()
    } else {
        let n = effects.len() - 1;
        let head = safe_only(effects.take(n), risks.take(n));
        if risks[n] == RiskTier::Safe {
            head.push(effects[n])
        } else {
            head
        }
    }
}

/// The effects whose risk is safe, for the caller to apply, in order.
pub fn safe_effects(effects: &Vec<Effect>, risks: &Vec<RiskTier>) -> (r: Vec<Effect>)
    requires
        risks@.len() == effects@.len(),
    ensures
        r@ == safe_only(effects@, risks@),
{
    let mut out: Vec<Effect> = Vec::new();
    let mut i: usize = 0;
    while i < effects.len()
        invariant
            i <= effects@.len(),
            risks@.len() == effects@.len(),
            out@ == safe_only(effects@.take(i as int), risks@.take(i as int)),
        decreases effects@.len() - i,
    {
        let ghost e_prev = effects@.take(i as int);
        let ghost r_prev = risks@.take(i as int);
        assert(effects@.take(i + 1).take(i as int) =~= e_prev);
        assert(risks@.take(i + 1).take(i as int) =~= r_prev);
        if risks[i] == RiskTier::Safe {
            let e = match &effects[i] {
                Effect::Activate => Effect::Activate,
                Effect::OnboardingHint { text } => Effect::OnboardingHint { text: text.clone() },
                Effect::SetConfig { key, value } => Effect::SetConfig { key: key.clone(), value: value.clone() },
            };
            assert(e == effects@[i as int]);
            out.push(e);
        }
        i += 1;
    }
    assert(effects@.take(i as int) =~= effects@);
    assert(risks@.take(i as int) =~= risks@);
    out
}

/// Who installed a plugin, from which pinned manifest, and when.
#[derive(Debug, Clone, PartialEq, Eq)]
pub struct PluginStamp {
    pub id: String,
    pub manifest_ref: String,
    pub installed_at: String,
}

/// Where a plugin's files came from and how it was obtained
/// (`bundled`, `repo` or `url`).
#[derive(Debug, Clone, PartialEq, Eq)]
pub struct PluginProvSource {
    pub repo: String,
    pub ref_: String,
    pub subtree: String,
    pub origin: String,
}

/// The plugin sidecar written next to an installed plugin. Its per-file
/// list stays empty: the mode's own provenance sidecar holds the files.
#[derive(Debug, Clone)]
pub struct PluginProvenance {
    pub schema: u32,
    pub plugin: PluginStamp,
    pub source: PluginProvSource,
    pub files: Vec<ProvenanceEntry>,
    pub effects_applied: Vec<AppliedEffect>,
}

/// What an accepted install writes and hands back: the plugin
/// sidecar, and the effects safe for the caller to apply.
#[derive(Debug, Clone)]
pub struct PluginInstall {
    pub sidecar: PluginProvenance,
    pub safe_effects: Vec<Effect>,
}

/// Decide a plugin install before anything is written: refuse it, or
/// build the plugin sidecar (schema 1, stamped with the plugin id,
/// pinned manifest ref and install time, sourced from the scan's repo,
/// resolved ref and subtree, with every effect recorded as applied) and the
/// safe effects.
pub fn plan_plugin_install(
    effects: &Vec<Effect>,
    risks: &Vec<RiskTier>,
    scan: &UpstreamScan,
    plugin_id: &str,
    manifest_ref: &str,
    origin: &str,
    installed_at: &str,
) -> (r: Result<PluginInstall, GateRefusal>)
    requires
        risks@.len() == effects@.len(),
    ensures
        gate_verdict(effects@, risks@) matches Err(g) ==> r == Err::<PluginInstall, GateRefusal>(g),
        gate_verdict(effects@, risks@) is Ok ==> (r matches Ok(p) && {
            &&& p.sidecar.schema == 1
            &&& p.sidecar.plugin.id@ == plugin_id@
            &&& p.sidecar.plugin.manifest_ref@ == manifest_ref@
            &&& p.sidecar.plugin.installed_at@ == installed_at@
            &&& p.sidecar.source.repo@ == scan.repo@
            &&& p.sidecar.source.ref_@ == scan.resolved_ref@
            &&& p.sidecar.source.subtree@ == scan.subtree_path@
            &&& p.sidecar.source.origin@ == origin@
            &&& p.sidecar.files@.len() == 0
            &&& p.sidecar.effects_applied@.len() == effects@.len()
            &&& forall|i: int| 0 <= i < effects@.len() ==> applied_of(#[trigger] effects@[i]) == Some(
                p.sidecar.effects_applied@[i],
            )
            &&& p.safe_effects@ == safe_only(effects@, risks@)
        }),
{
    match effect_gate(effects, risks) {
        Err(g) => Err(g),
        Ok(()) => {
            proof {
                lemma_pass_has_no_config(effects@, risks@, 0);
            }
            let applied = applied_effects(effects);
            let sidecar = PluginProvenance {
                schema: 1,
                plugin: PluginStamp {
                    id: String::from_str(plugin_id),
                    manifest_ref: String::from_str(manifest_ref),
                    installed_at: String::from_str(installed_at),
                },
                source: PluginProvSource {
                    repo: scan.repo.clone(),
                    ref_: scan.resolved_ref.clone(),
                    subtree: scan.subtree_path.clone(),
                    origin: String::from_str(origin),
                },
                files: Vec::new(),
                effects_applied: applied,
            };
            Ok(PluginInstall { sidecar, safe_effects: safe_effects(effects, risks) })
        },
    }
}

/// When nothing from `i` on is refused, no effect from `i` on writes config.
pub proof fn lemma_pass_has_no_config(effects: Seq<Effect>, risks: Seq<RiskTier>, i: int)
    requires
        0 <= i <= effects.len(),
        first_gated_from(effects, risks, i) == effects.len(),
    ensures
        forall|j: int| i <= j < effects.len() ==> !(#[trigger] effects[j] is SetConfig),
    decreases effects.len() - i,
{
    if i < effects.len() {
        lemma_pass_has_no_config(effects, risks, i + 1);
    }
}

/// Every effect an install hands back as safe is a declared effect whose
/// risk is safe, and there are no more of them than were declared.
pub proof fn lemma_safe_effects_are_declared(effects: Seq<Effect>, risks: Seq<RiskTier>)
    requires
        risks.len() == effects.len(),
    ensures
        safe_only(effects, risks).len() <= effects.len(),
        forall|e: Effect| #[trigger] safe_only(effects, risks).contains(e) ==> exists|i: int|
            0 <= i < effects.len() && effects[i] == e && risks[i] == RiskTier::Safe,
    decreases effects.len(),
{
    if effects.len() > 0 {
        let n = effects.len() - 1;
        lemma_safe_effects_are_declared(effects.take(n), risks.take(n));
        let head = safe_only(effects.take(n), risks.take(n));
        assert forall|e: Effect| #[trigger] safe_only(effects, risks).contains(e) implies exists|i: int|
            0 <= i < effects.len() && effects[i] == e && risks[i] == RiskTier::Safe by {
            if head.contains(e) {
                let i = choose|i: int| 0 <= i < n && effects.take(n)[i] == e && risks.take(n)[i] == RiskTier::Safe;
                assert(effects[i] == e && risks[i] == RiskTier::Safe);
            } else {
                assert(risks[n] == RiskTier::Safe && effects[n] == e);
            }
        }
    }
}

/// A character a plugin id may hold: lowercase ASCII letters, digits, `.`,
/// `_` and `-` (an id is spliced into a URL).
pub open spec fn id_char(c: char) -> bool {
    ('a' <= c <= 'z') || ('0' <= c <= '9') || c == '.' || c == '_' || c == '-'
}

/// Whether a plugin id holds only characters an id may hold.
pub fn valid_plugin_id(id: &str) -> (r: bool)
    ensures
        r == forall|i: int| 0 <= i < id@.len() ==> id_char(#[trigger] id@[i]),
{
    let v = chars_of(id);
    let mut i: usize = 0;
    while i < v.len()
        invariant
            i <= v@.len(),
            v@ == id@,
            forall|j: int| 0 <= j < i ==> id_char(#[trigger] v@[j]),
        decreases v@.len() - i,
    {
        let c = v[i];
        if !(('a' <= c && c <= 'z') || ('0' <= c && c <= '9') || c == '.' || c == '_' || c == '-') {
            return false;
        }
        i += 1;
    }
    true
}

/// The hint that stops a `:plugin install` before anything starts: the
/// usage for a blank argument, a notice while another install runs, or the
/// refusal of an id with characters an id may not hold (`id` is the
/// argument when it names a catalog id). `None` lets the install go on.
pub fn install_precheck(plugin_ref: &str, installing: bool, id: Option<&str>) -> (r: Option<String>)
    ensures
        trim(plugin_ref@).len() == 0 ==> (r matches Some(h) && h@ == "usage: :plugin install <id|github-url> [--mode|--skills]"@),
        trim(plugin_ref@).len() > 0 && installing ==> (r matches Some(h) && h@ == "a plugin install is already in progress…"@),
        trim(plugin_ref@).len() > 0 && !installing ==> match id {
            Some(i) => if forall|k: int| 0 <= k < i@.len() ==> id_char(#[trigger] i@[k]) {
                r is None
            } else {
                r matches Some(h) && h@ == "invalid plugin id '"@ + i@ + "'"@
            },
            None => r is None,
        },
{
    if trim_chars(&chars_of(plugin_ref)).len() == 0 {
        return Some(String::from_str("usage: :plugin install <id|github-url> [--mode|--skills]"));
    }
    if installing {
        return Some(String::from_str("a plugin install is already in progress…"));
    }
    match id {
        Some(i) => {
            if valid_plugin_id(i) {
                None
            } else {
                let mut m = chars_of("invalid plugin id '");
                extend_str(&mut m, i);
                extend_str(&mut m, "'");
                Some(string_of(&m))
            }
        },
        None => None,
    }
}

/// The GitHub tree a plugin's pinned source names:
/// `github.com/<repo>/tree/<ref>/<subtree>`.
pub fn source_tree_url(repo: &str, rf: &str, subtree: &str) -> (r: String)
    ensures
        r@ == "github.com/"@ + repo@ + "/tree/"@ + rf@ + "/"@ + subtree@,
{
    let mut m = chars_of("github.com/");
    extend_str(&mut m, repo);
    extend_str(&mut m, "/tree/");
    extend_str(&mut m, rf);
    extend_str(&mut m, "/");
    extend_str(&mut m, subtree);
    string_of(&m)
}

/// A `--mode` or `--skills` flag that overrides the kind a manifest declares.
#[derive(Debug, Clone, Copy, PartialEq, Eq, Structural)]
pub enum KindOverride {
    /// No flag: the manifest's declared kinds stand.
    Declared,
    Mode,
    Skills,
}

/// The kinds a manifest installs as, after the override.
pub open spec fn overridden_kinds(declared: Seq<Seq<char>>, over: KindOverride) -> Seq<Seq<char>> {
    match over {
        KindOverride::Declared => declared,
        KindOverride::Mode => seq!["mode"@],
        KindOverride::Skills => seq!["skills"@],
    }
}

/// The texts of a list of strings.
pub open spec fn strs(v: Seq<String>) -> Seq<Seq<char>> {
    v.map_values(|s: String| s@)
}

/// The kinds a manifest installs as: the override's single kind, else the
/// declared ones.
pub fn effective_kinds(declared: &Vec<String>, over: KindOverride) -> (r: Vec<String>)
    ensures
        strs(r@) == overridden_kinds(strs(declared@), over),
{
    match over {
        KindOverride::Declared => {
            let mut out: Vec<String> = Vec::new();
            let mut i: usize = 0;
            while i < declared.len()
                invariant
                    i <= declared@.len(),
                    strs(out@) == strs(declared@.take(i as int)),
                decreases declared@.len() - i,
            {
                let ghost before = out@;
                out.push(declared[i].clone());
                assert(declared@.take(i + 1) =~= declared@.take(i as int).push(declared@[i as int]));
                assert(strs(out@) =~= strs(before).push(declared@[i as int]@));
                assert(strs(declared@.take(i + 1)) =~= strs(declared@.take(i as int)).push(declared@[i as int]@));
                i += 1;
            }
            assert(declared@.take(i as int) =~= declared@);
            out
        },
        KindOverride::Mode => {
            let out = vec![String::from_str("mode")];
            assert(strs(out@) =~= seq!["mode"@]);
            out
        },
        KindOverride::Skills => {
            let out = vec![String::from_str("skills")];
            assert(strs(out@) =~= seq!["skills"@]);
            out
        },
    }
}

/// A skills pack: it declares `skills` and not `mode`; anything else
/// installs as a mode.
pub open spec fn skills_pack(kinds: Seq<Seq<char>>) -> bool {
    kinds.contains("skills"@) && !kinds.contains("mode"@)
}

fn has_kind(kinds: &Vec<String>, k: &str) -> (r: bool)
    ensures
        r == strs(kinds@).contains(k@),
{
    let want = chars_of(k);
    let mut i: usize = 0;
    while i < kinds.len()
        invariant
            i <= kinds@.len(),
            want@ == k@,
            forall|j: int| 0 <= j < i ==> kinds@[j]@ != k@,
        decreases kinds@.len() - i,
    {
        if chars_eq(&chars_of(kinds[i].as_str()), &want) {
            assert(strs(kinds@)[i as int] == k@);
            return true;
        }
        i += 1;
    }
    assert(!strs(kinds@).contains(k@)) by {
        if strs(kinds@).contains(k@) {
            let j = choose|j: int| 0 <= j < strs(kinds@).len() && strs(kinds@)[j] == k@;
            assert(kinds@[j]@ == k@);
        }
    }
    false
}

/// Whether a plugin with these kinds installs as a skills pack.
pub fn is_skills_kind(kinds: &Vec<String>) -> (r: bool)
    ensures
        r == skills_pack(strs(kinds@)),
{
    has_kind(kinds, "skills") && !has_kind(kinds, "mode")
}

/// The path names a `SKILL.md` inside some directory.
pub open spec fn names_skill(path: Seq<char>) -> bool {
    path.len() >= 9 && path.subrange(path.len() - 9, path.len() as int) == "/SKILL.md"@
}

/// How many of the paths name a `SKILL.md`.
pub open spec fn skill_count(paths: Seq<Seq<char>>) -> nat
    decreases paths.len(),
{
    if paths.len() == 0 {
        0
    } else {
        skill_count(paths.drop_last()) + if names_skill(paths.last()) { 1nat } else { 0nat }
    }
}

/// The upstream paths of a scan.
pub open spec fn scan_paths(scan: UpstreamScan) -> Seq<Seq<char>> {
    scan.files@.map_values(|f: ScannedFile| f.upstream_path@)
}

fn ends_with_skill(p: &String) -> (r: bool)
    ensures
        r == names_skill(p@),
{
    proof {
        reveal_strlit("/SKILL.md");
    }
    let v = chars_of(p.as_str());
    let tail = chars_of("/SKILL.md");
    if v.len() < 9 {
        return false;
    }
    let t = sub_chars(&v, v.len() - 9, v.len());
    chars_eq(&t, &tail)
}

/// The status after a skills pack was installed: how many skills it
/// brought, and that zoid must restart to load them.
pub fn skills_installed_hint(id: &str, scan: &UpstreamScan) -> (r: String)
    ensures
        r@ == "plugin '"@ + id@ + "' installed ("@ + decimal(skill_count(scan_paths(*scan))) + " skills). Restart zoid to load them."@,
{
    let mut n: u64 = 0;
    let mut i: usize = 0;
    while i < scan.files.len()
        invariant
            i <= scan.files@.len(),
            n as nat == skill_count(scan_paths(*scan).take(i as int)),
            n <= i,
        decreases scan.files@.len() - i,
    {
        assert(scan_paths(*scan).take(i + 1).drop_last() =~= scan_paths(*scan).take(i as int));
        assert(scan_paths(*scan).take(i + 1).last() == scan.files@[i as int].upstream_path@);
        if ends_with_skill(&scan.files[i].upstream_path) {
            n = n + 1;
        }
        i += 1;
    }
    assert(scan_paths(*scan).take(i as int) =~= scan_paths(*scan));
    let mut m = chars_of("plugin '");
    extend_str(&mut m, id);
    extend_str(&mut m, "' installed (");
    let d = decimal_chars(n);
    extend_chars(&mut m, &d);
    extend_str(&mut m, " skills). Restart zoid to load them.");
    string_of(&m)
}

/// The pin a plugin sidecar records: the manifest's declared source ref,
/// else the ref the fetch resolved.
pub fn pinned_ref(declared: Option<&str>, resolved: &str) -> (r: String)
    ensures
        match declared {
            Some(d) => r@ == d@,
            None => r@ == resolved@,
        },
{
    match declared {
        Some(d) => String::from_str(d),
        None => String::from_str(resolved),
    }
}

/// What installing a mode plugin reports: whether to activate the mode,
/// whether to go back to the mode active before (activation was asked for
/// but the mode is not listed), and the status line.
#[derive(Debug, Clone, PartialEq, Eq)]
pub struct InstallReport {
    pub activate: bool,
    pub restore_previous: bool,
    pub status: String,
}

/// An effect asks for activation.
pub open spec fn asks_activation(effects: Seq<Effect>) -> bool {
    exists|i: int| 0 <= i < effects.len() && effects[i] is Activate
}

/// The text of the last onboarding hint among the effects.
pub open spec fn last_hint(effects: Seq<Effect>) -> Option<Seq<char>>
    decreases effects.len(),
{
    if effects.len() == 0 {
        None
    } else {
        match effects.last() {
            Effect::OnboardingHint { text } => Some(text@),
            _ => last_hint(effects.drop_last()),
        }
    }
}

/// The status line: the plugin's onboarding hint when the mode became
/// active (or activation was not asked for), else an honest account.
pub open spec fn install_status(id: Seq<char>, wants: bool, activated: bool, hint: Option<Seq<char>>) -> Seq<char> {
    if wants && !activated {
        "plugin '"@ + id + "' installed but could not be activated."@
    } else {
        match hint {
            Some(t) => t,
            None => if wants {
                "plugin '"@ + id + "' installed and active."@
            } else {
                "plugin '"@ + id + "' installed."@
            },
        }
    }
}

/// Report on the safe effects of an installed mode plugin (`mode_listed`:
/// the rebuilt mode registry lists the plugin's mode).
pub fn install_report(effects: &Vec<Effect>, mode_listed: bool, id: &str) -> (r: InstallReport)
    requires
        forall|i: int| 0 <= i < effects@.len() ==> !(#[trigger] effects@[i] is SetConfig),
    ensures
        r.activate == (asks_activation(effects@) && mode_listed),
        r.restore_previous == (asks_activation(effects@) && !mode_listed),
        r.status@ == install_status(id@, asks_activation(effects@), asks_activation(effects@) && mode_listed, last_hint(effects@)),
{
    let mut wants = false;
    let mut hint: Option<String> = None;
    let mut i: usize = 0;
    while i < effects.len()
        invariant
            i <= effects@.len(),
            wants == asks_activation(effects@.take(i as int)),
            match hint {
                Some(h) => last_hint(effects@.take(i as int)) == Some(h@),
                None => last_hint(effects@.take(i as int)) is None,
            },
        decreases effects@.len() - i,
    {
        assert(effects@.take(i + 1).drop_last() =~= effects@.take(i as int));
        assert(effects@.take(i + 1).last() == effects@[i as int]);
        match &effects[i] {
            Effect::Activate => {
                assert(effects@.take(i + 1)[i as int] is Activate);
                wants = true;
            },
            Effect::OnboardingHint { text } => {
                hint = Some(text.clone());
            },
            Effect::SetConfig { .. } => {},
        }
        proof {
            if wants {
                if !(effects@[i as int] is Activate) {
                    let j = choose|j: int| 0 <= j < i && effects@.take(i as int)[j] is Activate;
                    assert(effects@.take(i + 1)[j] is Activate);
                }
            } else {
                assert forall|j: int| 0 <= j < i + 1 implies !(#[trigger] effects@.take(i + 1)[j] is Activate) by {
                    if j < i {
                        assert(effects@.take(i + 1)[j] == effects@.take(i as int)[j]);
                    }
                }
            }
        }
        i += 1;
    }
    assert(effects@.take(i as int) =~= effects@);
    let activated = wants && mode_listed;
    let status = if wants && !activated {
        let mut m = chars_of("plugin '");
        extend_str(&mut m, id);
        extend_str(&mut m, "' installed but could not be activated.");
        string_of(&m)
    } else {
        match hint {
            Some(t) => t,
            None => {
                let mut m = chars_of("plugin '");
                extend_str(&mut m, id);
                if wants {
                    extend_str(&mut m, "' installed and active.");
                } else {
                    extend_str(&mut m, "' installed.");
                }
                string_of(&m)
            },
        }
    };
    InstallReport { activate: activated, restore_previous: wants && !mode_listed, status }
}

/// A plugin installed as a mode never claims to be active when its mode
/// could not be activated.
pub proof fn lemma_status_is_honest(id: Seq<char>, wants: bool, hint: Option<Seq<char>>)
    requires
        wants,
    ensures
        install_status(id, wants, false, hint) == "plugin '"@ + id + "' installed but could not be activated."@,
{
}

} // verus!
