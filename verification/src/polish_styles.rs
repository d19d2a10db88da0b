//! Named polish tone presets, merged into the polish system prompt.
use crate::text::{lower, lower_vec, trim, trimmed, eq_str};
use vstd::prelude::*;

verus! {

pub open spec fn spec_style_system_suffix(key: Seq<char>) -> Option<Seq<char>> {
    if key == ""@ || key == "default"@ || key == "neutral"@ {
        None
    } else if key == "casual"@ || key == "friendly"@ {
        Some("Tone: casual and friendly. Prefer contractions and plain words; stay professional enough for work chat."@)
    } else if key == "formal"@ || key == "professional"@ {
        Some("Tone: formal and professional. Complete sentences, no slang, suitable for email or docs."@)
    } else if key == "concise"@ || key == "brief"@ {
        Some("Tone: concise. Remove filler and redundancy; keep only necessary detail."@)
    } else if key == "email"@ {
        Some("Format: polished email body. Greeting and sign-off only if the speaker implied them."@)
    } else if key == "bullets"@ || key == "bullet"@ {
        Some("Format: use bullet lines when the speaker lists items; otherwise short paragraphs."@)
    } else {
        None
    }
}

/// Extra system instructions for `[polish].style` in text.toml.
pub fn style_system_suffix(style: &str) -> (r: Option<&'static str>)
    ensures
        match r {
            Some(s) => spec_style_system_suffix(lower(trim(style@))) == Some(s@),
            None => spec_style_system_suffix(lower(trim(style@))) is None,
        },
{
    let t = trimmed(style);
    let k = lower_vec(&t);
    if eq_str(&k, "") || eq_str(&k, "default") || eq_str(&k, "neutral") {
        None
    } else if eq_str(&k, "casual") || eq_str(&k, "friendly") {
        Some(
            "Tone: casual and friendly. Prefer contractions and plain words; stay professional enough for work chat.",
        )
    } else if eq_str(&k, "formal") || eq_str(&k, "professional") {
        Some(
            "Tone: formal and professional. Complete sentences, no slang, suitable for email or docs.",
        )
    } else if eq_str(&k, "concise") || eq_str(&k, "brief") {
        Some("Tone: concise. Remove filler and redundancy; keep only necessary detail.")
    } else if eq_str(&k, "email") {
        Some(
            "Format: polished email body. Greeting and sign-off only if the speaker implied them.",
        )
    } else if eq_str(&k, "bullets") || eq_str(&k, "bullet") {
        Some(
            "Format: use bullet lines when the speaker lists items; otherwise short paragraphs.",
        )
    } else {
        None
    }
}

pub open spec fn spec_apply_style_to_system(base: Seq<char>, style: Seq<char>) -> Seq<char> {
    match spec_style_system_suffix(lower(trim(style))) {
        Some(suffix) => base + "\n\n"@ + suffix,
        None => base,
    }
}

pub fn apply_style_to_system(base: &str, style: &str) -> (r: String)
    ensures
        r@ == spec_apply_style_to_system(base@, style@),
{
    match style_system_suffix(style) {
        Some(suffix) => {
            let mut out = String::from_str(base);
            out.append("\n\n");
            out.append(suffix);
            out
        },
        None => String::from_str(base),
    }
}


/// A style only ever adds to the system prompt: the base comes first, and
/// the prompt differs from the base exactly when the style has a suffix,
/// which then follows after a blank line.
pub proof fn lemma_style_extends_base(base: Seq<char>, style: Seq<char>)
    ensures
        spec_apply_style_to_system(base, style).take(base.len() as int) == base,
        (spec_apply_style_to_system(base, style) == base) <==> spec_style_system_suffix(
            lower(trim(style)),
        ) is None,
{
    reveal_strlit("\n\n");
    let o = spec_apply_style_to_system(base, style);
    match spec_style_system_suffix(lower(trim(style))) {
        Some(x) => {
            assert(o.take(base.len() as int) =~= base);
            assert(o.len() > base.len());
        },
        None => {
            assert(o.take(base.len() as int) =~= base);
        },
    }
}

} // verus!
