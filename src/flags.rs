//! The noise-reduction flags of a sidecar, switched on by text substitution.
use vstd::prelude::*;
use crate::text::{contains_str, contains_text, replace_all, replace_str};

verus! {

/// A noise-reduction setting that can be switched on.
#[derive(Clone, Copy, Debug, PartialEq, Eq, Structural)]
pub enum NoiseFlag {
    /// Astro noise reduction.
    Astro,
    /// Best-quality (rather than fastest) noise reduction.
    BestQuality,
    /// Edge noise reduction.
    Edge,
}

/// The flag's setting with the value off.
pub open spec fn off_marker(f: NoiseFlag) -> Seq<char> {
    match f {
        NoiseFlag::Astro => "NoiseReduction.chkSpike\"&gt;0&lt;"@,
        NoiseFlag::BestQuality => "NoiseReduction.cbMethod\"&gt;0&lt;"@,
        NoiseFlag::Edge => "NoiseReduction.chkEdge\"&gt;0&lt;"@,
    }
}

/// The flag's setting with the value on.
pub open spec fn on_marker(f: NoiseFlag) -> Seq<char> {
    match f {
        NoiseFlag::Astro => "NoiseReduction.chkSpike\"&gt;1&lt;"@,
        NoiseFlag::BestQuality => "NoiseReduction.cbMethod\"&gt;1&lt;"@,
        NoiseFlag::Edge => "NoiseReduction.chkEdge\"&gt;1&lt;"@,
    }
}

fn off_text(f: NoiseFlag) -> (r: &'static str)
    ensures
        r@ == off_marker(f),
{
    match f {
        NoiseFlag::Astro => "NoiseReduction.chkSpike\"&gt;0&lt;",
        NoiseFlag::BestQuality => "NoiseReduction.cbMethod\"&gt;0&lt;",
        NoiseFlag::Edge => "NoiseReduction.chkEdge\"&gt;0&lt;",
    }
}

fn on_text(f: NoiseFlag) -> (r: &'static str)
    ensures
        r@ == on_marker(f),
{
    match f {
        NoiseFlag::Astro => "NoiseReduction.chkSpike\"&gt;1&lt;",
        NoiseFlag::BestQuality => "NoiseReduction.cbMethod\"&gt;1&lt;",
        NoiseFlag::Edge => "NoiseReduction.chkEdge\"&gt;1&lt;",
    }
}

/// Whether the sidecar holds the flag switched off.
pub fn flag_is_off(text: &str, f: NoiseFlag) -> (r: bool)
    ensures
        r == contains_text(text@, off_marker(f)),
{
    contains_str(text, off_text(f))
}

/// Whether the sidecar holds the flag switched on.
pub fn flag_is_on(text: &str, f: NoiseFlag) -> (r: bool)
    ensures
        r == contains_text(text@, on_marker(f)),
{
    contains_str(text, on_text(f))
}

/// Switches every off setting of the flag on.
pub fn switch_flag_on(text: &str, f: NoiseFlag) -> (r: String)
    ensures
        r@ == replace_all(text@, off_marker(f), on_marker(f)),
{
    replace_str(text, off_text(f), on_text(f))
}

/// The flags that a run asks to switch on.
#[derive(Clone, Copy, Debug, PartialEq, Eq, Structural)]
pub struct FlagRequest {
    pub astro: bool,
    pub best_quality: bool,
    pub edge: bool,
}

/// Which requested flags a sidecar still holds switched off, and the text
/// with all of those switched on.
#[derive(Debug)]
pub struct FlagOutcome {
    pub astro: bool,
    pub best_quality: bool,
    pub edge: bool,
    /// The text to write back, where writing is enabled and at least one
    /// flag changes.
    pub new_text: Option<String>,
}

/// A requested flag is switched where the text holds it off.
pub open spec fn flag_due(t: Seq<char>, requested: bool, f: NoiseFlag) -> bool {
    requested && contains_text(t, off_marker(f))
}

/// `t` after switching on the flags that are due, in the order astro, best
/// quality, edge.
pub open spec fn toggled_text(t: Seq<char>, req: FlagRequest) -> Seq<char> {
    let a = if flag_due(t, req.astro, NoiseFlag::Astro) {
        replace_all(t, off_marker(NoiseFlag::Astro), on_marker(NoiseFlag::Astro))
    } else {
        t
    };
    let b = if flag_due(t, req.best_quality, NoiseFlag::BestQuality) {
        replace_all(a, off_marker(NoiseFlag::BestQuality), on_marker(NoiseFlag::BestQuality))
    } else {
        a
    };
    if flag_due(t, req.edge, NoiseFlag::Edge) {
        replace_all(b, off_marker(NoiseFlag::Edge), on_marker(NoiseFlag::Edge))
    } else {
        b
    }
}

/// Decides which requested flags to switch on in a sidecar and, when
/// writing is enabled, switches them.
pub fn toggle_flags(text: &str, req: &FlagRequest, write_enabled: bool) -> (r: FlagOutcome)
    ensures
        r.astro == flag_due(text@, req.astro, NoiseFlag::Astro),
        r.best_quality == flag_due(text@, req.best_quality, NoiseFlag::BestQuality),
        r.edge == flag_due(text@, req.edge, NoiseFlag::Edge),
        r.new_text is Some <==> write_enabled && (r.astro || r.best_quality || r.edge),
        r.new_text matches Some(s) ==> s@ == toggled_text(text@, *req),
{
    let astro = req.astro && flag_is_off(text, NoiseFlag::Astro);
    let best_quality = req.best_quality && flag_is_off(text, NoiseFlag::BestQuality);
    let edge = req.edge && flag_is_off(text, NoiseFlag::Edge);
    if !write_enabled || !(astro || best_quality || edge) {
        return FlagOutcome { astro, best_quality, edge, new_text: None };
    }
    let mut body = String::new();
    body.append(text);
    if astro {
        body = switch_flag_on(body.as_str(), NoiseFlag::Astro);
    }
    if best_quality {
        body = switch_flag_on(body.as_str(), NoiseFlag::BestQuality);
    }
    if edge {
        body = switch_flag_on(body.as_str(), NoiseFlag::Edge);
    }
    FlagOutcome { astro, best_quality, edge, new_text: Some(body) }
}

} // verus!
