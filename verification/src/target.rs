//! The skin source saved in the runtime state: changing it to a resolved
//! character, checking what was saved, and saving a new scale.
use vstd::prelude::*;

use crate::character::ResolvedCharacterSkin;
use crate::favorite_shuffle::FavoriteEntry;
use crate::server_log::{optional_path_text, optional_text};
use crate::path_text::{path_key, same_path};

verus! {

/// The skin source and scales saved in the runtime state. Scales are kept
/// as the bits of their `f32` value.
#[derive(Debug, Clone)]
pub struct MascotTarget {
    pub png_path: String,
    pub scale_bits: Option<u32>,
    pub favorite_ensemble_scale_bits: Option<u32>,
    pub zip_path: String,
    pub psd_path_in_zip: String,
    pub display_diff_path: Option<String>,
}

/// The view of an optional path.
pub open spec fn opt_view(o: Option<String>) -> Option<Seq<char>> {
    match o {
        Some(s) => Some(s@),
        None => None,
    }
}

/// The key of an optional path: paths are compared by their components.
pub open spec fn opt_path_key(o: Option<String>) -> Option<Seq<char>> {
    match o {
        Some(s) => Some(path_key(s@)),
        None => None,
    }
}

/// What a target says, as plain values, each path by its components: two
/// targets are the same target exactly when these are equal.
pub open spec fn target_view(t: MascotTarget) -> (
    Seq<char>,
    Option<u32>,
    Option<u32>,
    Seq<char>,
    Seq<char>,
    Option<Seq<char>>,
) {
    (
        path_key(t.png_path@),
        t.scale_bits,
        t.favorite_ensemble_scale_bits,
        path_key(t.zip_path@),
        path_key(t.psd_path_in_zip@),
        opt_path_key(t.display_diff_path),
    )
}

fn duplicate_opt(o: &Option<String>) -> (r: Option<String>)
    ensures
        r == *o,
{
    match o {
        Some(s) => Some(s.clone()),
        None => None,
    }
}

fn opt_same_path(a: &Option<String>, b: &Option<String>) -> (r: bool)
    ensures
        r == (opt_path_key(*a) == opt_path_key(*b)),
{
    match (a, b) {
        (Some(x), Some(y)) => same_path(x.as_str(), y.as_str()),
        (None, None) => true,
        _ => false,
    }
}

fn opt_as_str(o: &Option<String>) -> (r: Option<&str>)
    ensures
        match r {
            Some(s) => opt_view(*o) == Some(s@),
            None => o is None,
        },
{
    match o {
        Some(s) => Some(s.as_str()),
        None => None,
    }
}

impl MascotTarget {
    /// A copy of this target.
    pub fn duplicate(&self) -> (t: Self)
        ensures
            t == *self,
    {
        MascotTarget {
            png_path: self.png_path.clone(),
            scale_bits: self.scale_bits,
            favorite_ensemble_scale_bits: self.favorite_ensemble_scale_bits,
            zip_path: self.zip_path.clone(),
            psd_path_in_zip: self.psd_path_in_zip.clone(),
            display_diff_path: duplicate_opt(&self.display_diff_path),
        }
    }
}

/// Whether the target shows exactly the resolved character's skin: the
/// same paths, compared by their components.
pub open spec fn matches_resolved(t: MascotTarget, r: ResolvedCharacterSkin) -> bool {
    &&& path_key(t.png_path@) == path_key(r.png_path@)
    &&& path_key(t.zip_path@) == path_key(r.zip_path@)
    &&& path_key(t.psd_path_in_zip@) == path_key(r.psd_path_in_zip@)
    &&& opt_path_key(t.display_diff_path) == opt_path_key(r.display_diff_path)
}

/// Points the target at the resolved character's skin; the scales stay.
pub fn apply_resolved_character(target: &mut MascotTarget, resolved: &ResolvedCharacterSkin)
    ensures
        matches_resolved(*final(target), *resolved),
        final(target).scale_bits == old(target).scale_bits,
        final(target).favorite_ensemble_scale_bits == old(target).favorite_ensemble_scale_bits,
{
    target.png_path = resolved.png_path.clone();
    target.zip_path = resolved.zip_path.clone();
    target.psd_path_in_zip = resolved.psd_path_in_zip.clone();
    target.display_diff_path = duplicate_opt(&resolved.display_diff_path);
}

/// Whether the target already shows the resolved character's skin, as
/// `matches_resolved` says.
pub fn config_matches_resolved_character(target: &MascotTarget, resolved: &ResolvedCharacterSkin) -> (b:
    bool)
    ensures
        b == matches_resolved(*target, *resolved),
{
    same_path(target.png_path.as_str(), resolved.png_path.as_str()) && same_path(
        target.zip_path.as_str(),
        resolved.zip_path.as_str(),
    ) && same_path(target.psd_path_in_zip.as_str(), resolved.psd_path_in_zip.as_str())
        && opt_same_path(&target.display_diff_path, &resolved.display_diff_path)
}

/// What is known of the target saved in the runtime state during a
/// character change.
#[derive(Debug, Clone)]
pub enum SavedTarget {
    /// Not read yet.
    NotRead,
    /// Reading it failed.
    Unreadable,
    /// The target that was read.
    Read(MascotTarget),
}

/// The next step of a request to change the character.
#[derive(Debug, Clone, Copy, PartialEq, Eq, Structural)]
pub enum CharacterChangeStep {
    /// Refuse the request: the favorite ensemble is shown.
    RefuseWhileFavoriteEnsemble,
    /// Resolve the requested character to a skin.
    ResolveCharacter,
    /// The skin is already shown: read the saved target to confirm it.
    ReadSavedTarget,
    /// Nothing to do: the skin is shown and the saved target agrees.
    SkipUnchanged,
    /// Switch to the resolved skin and save it.
    ApplyChange,
}

/// The step of a character change, from whether the favorite ensemble is
/// shown, the current target, the resolved skin once known and the saved
/// target: a refusal while the favorite ensemble is shown; otherwise the
/// resolution first; a skip only when the current target already shows the
/// resolved skin and the saved target reads back equal to it; a change in
/// every other case (a saved target that cannot be read or differs is
/// written again).
pub open spec fn character_change_step_of(
    favorite_ensemble_enabled: bool,
    config: MascotTarget,
    resolved: Option<ResolvedCharacterSkin>,
    saved: SavedTarget,
) -> CharacterChangeStep {
    if favorite_ensemble_enabled {
        CharacterChangeStep::RefuseWhileFavoriteEnsemble
    } else {
        match resolved {
            None => CharacterChangeStep::ResolveCharacter,
            Some(r) => if !matches_resolved(config, r) {
                CharacterChangeStep::ApplyChange
            } else {
                match saved {
                    SavedTarget::NotRead => CharacterChangeStep::ReadSavedTarget,
                    SavedTarget::Unreadable => CharacterChangeStep::ApplyChange,
                    SavedTarget::Read(p) => if target_view(config) == target_view(p) {
                        CharacterChangeStep::SkipUnchanged
                    } else {
                        CharacterChangeStep::ApplyChange
                    },
                }
            },
        }
    }
}

/// A request to change the character applies the change whenever the shown
/// target differs from the resolved skin in its PNG, zip, PSD or display
/// diff (paths compared by components): then the target does not match the
/// skin, whatever was saved. When it does match, the saved target is read
/// before anything else, and the request is skipped only when that saved
/// target equals the shown one.
pub proof fn lemma_character_change_applies_when_skin_differs(
    config: MascotTarget,
    resolved: ResolvedCharacterSkin,
    saved: SavedTarget,
)
    ensures
        (path_key(config.png_path@) != path_key(resolved.png_path@) || path_key(config.zip_path@)
            != path_key(resolved.zip_path@) || path_key(config.psd_path_in_zip@) != path_key(
            resolved.psd_path_in_zip@,
        ) || opt_path_key(config.display_diff_path) != opt_path_key(resolved.display_diff_path))
            ==> !matches_resolved(config, resolved) && character_change_step_of(
            false,
            config,
            Some(resolved),
            saved,
        ) == CharacterChangeStep::ApplyChange,
        (path_key(config.png_path@) == path_key(resolved.png_path@) && path_key(config.zip_path@)
            == path_key(resolved.zip_path@) && path_key(config.psd_path_in_zip@) == path_key(
            resolved.psd_path_in_zip@,
        ) && opt_path_key(config.display_diff_path) == opt_path_key(resolved.display_diff_path))
            ==> matches_resolved(config, resolved),
        matches_resolved(config, resolved) ==> character_change_step_of(
            false,
            config,
            Some(resolved),
            SavedTarget::NotRead,
        ) == CharacterChangeStep::ReadSavedTarget,
        character_change_step_of(false, config, Some(resolved), saved)
            == CharacterChangeStep::SkipUnchanged ==> (saved matches SavedTarget::Read(p)
            && target_view(config) == target_view(p)),
{
}

/// Decides the next step of a character change, as
/// `character_change_step_of` says.
pub fn character_change_step(
    favorite_ensemble_enabled: bool,
    config: &MascotTarget,
    resolved: Option<&ResolvedCharacterSkin>,
    saved: &SavedTarget,
) -> (r: CharacterChangeStep)
    ensures
        r == character_change_step_of(
            favorite_ensemble_enabled,
            *config,
            match resolved {
                Some(x) => Some(*x),
                None => None,
            },
            *saved,
        ),
{
    if favorite_ensemble_enabled {
        return CharacterChangeStep::RefuseWhileFavoriteEnsemble;
    }
    match resolved {
        None => CharacterChangeStep::ResolveCharacter,
        Some(res) => {
            if !config_matches_resolved_character(config, res) {
                return CharacterChangeStep::ApplyChange;
            }
            match saved {
                SavedTarget::NotRead => CharacterChangeStep::ReadSavedTarget,
                SavedTarget::Unreadable => CharacterChangeStep::ApplyChange,
                SavedTarget::Read(p) => {
                    match verify_persisted_character_change(config, p.duplicate()) {
                        Ok(_) => CharacterChangeStep::SkipUnchanged,
                        Err(_) => CharacterChangeStep::ApplyChange,
                    }
                },
            }
        },
    }
}

/// The error a saved target that differs from the requested one is
/// reported with.
pub open spec fn mismatch_text(expected: MascotTarget, persisted: MascotTarget) -> Seq<char> {
    "persisted mascot runtime state did not match the requested character source: requested_png="@
        + expected.png_path@ + " persisted_png="@ + persisted.png_path@ + " requested_zip="@
        + expected.zip_path@ + " persisted_zip="@ + persisted.zip_path@ + " requested_psd="@
        + expected.psd_path_in_zip@ + " persisted_psd="@ + persisted.psd_path_in_zip@
        + " requested_display_diff="@ + optional_text(opt_view(expected.display_diff_path))
        + " persisted_display_diff="@ + optional_text(opt_view(persisted.display_diff_path))
}

/// Checks the target read back from the runtime state against the one
/// requested: the saved one when they agree in every field, else the
/// mismatch, as `mismatch_text` says.
pub fn verify_persisted_character_change(expected: &MascotTarget, persisted: MascotTarget) -> (r:
    Result<MascotTarget, String>)
    ensures
        target_view(*expected) == target_view(persisted) ==> r == Ok::<MascotTarget, String>(
            persisted,
        ),
        target_view(*expected) != target_view(persisted) ==> (r matches Err(e) && e@
            == mismatch_text(*expected, persisted)),
{
    let same = same_path(expected.png_path.as_str(), persisted.png_path.as_str())
        && expected.scale_bits == persisted.scale_bits && expected.favorite_ensemble_scale_bits
        == persisted.favorite_ensemble_scale_bits && same_path(
        expected.zip_path.as_str(),
        persisted.zip_path.as_str(),
    ) && same_path(expected.psd_path_in_zip.as_str(), persisted.psd_path_in_zip.as_str())
        && opt_same_path(&expected.display_diff_path, &persisted.display_diff_path);
    if same {
        return Ok(persisted);
    }
    let mut s = String::from_str(
        "persisted mascot runtime state did not match the requested character source: requested_png=",
    );
    s.append(expected.png_path.as_str());
    s.append(" persisted_png=");
    s.append(persisted.png_path.as_str());
    s.append(" requested_zip=");
    s.append(expected.zip_path.as_str());
    s.append(" persisted_zip=");
    s.append(persisted.zip_path.as_str());
    s.append(" requested_psd=");
    s.append(expected.psd_path_in_zip.as_str());
    s.append(" persisted_psd=");
    s.append(persisted.psd_path_in_zip.as_str());
    s.append(" requested_display_diff=");
    let requested_diff = optional_path_text(opt_as_str(&expected.display_diff_path));
    s.append(requested_diff.as_str());
    s.append(" persisted_display_diff=");
    let persisted_diff = optional_path_text(opt_as_str(&persisted.display_diff_path));
    s.append(persisted_diff.as_str());
    Err(s)
}

/// The target saved when the single-character scale is changed: the
/// configuration with the new scale.
pub fn scale_persist_target(config: &MascotTarget, scale_bits: u32) -> (t: MascotTarget)
    ensures
        t == (MascotTarget { scale_bits: Some(scale_bits), ..*config }),
{
    let mut t = config.duplicate();
    t.scale_bits = Some(scale_bits);
    t
}

/// The target saved when the favorite-ensemble scale is changed: the
/// configuration with the new ensemble scale.
pub fn favorite_ensemble_scale_persist_target(config: &MascotTarget, scale_bits: u32) -> (t:
    MascotTarget)
    ensures
        t == (MascotTarget { favorite_ensemble_scale_bits: Some(scale_bits), ..*config }),
{
    let mut t = config.duplicate();
    t.favorite_ensemble_scale_bits = Some(scale_bits);
    t
}

/// The target a shuffled favorite is shown with: its rendered PNG, its own
/// scale, and no ensemble scale or variation.
pub fn favorite_target(favorite: &FavoriteEntry, rendered_png_path: String) -> (t: MascotTarget)
    ensures
        t.png_path == rendered_png_path,
        t.scale_bits == favorite.mascot_scale_bits,
        t.favorite_ensemble_scale_bits is None,
        t.zip_path == favorite.zip_path,
        t.psd_path_in_zip == favorite.psd_path_in_zip,
        t.display_diff_path is None,
{
    MascotTarget {
        png_path: rendered_png_path,
        scale_bits: favorite.mascot_scale_bits,
        favorite_ensemble_scale_bits: None,
        zip_path: favorite.zip_path.clone(),
        psd_path_in_zip: favorite.psd_path_in_zip.clone(),
        display_diff_path: None,
    }
}

/// The target of a preview request: the requested skin source and scale,
/// no favorite-ensemble scale.
pub fn preview_target(
    png_path: &str,
    zip_path: &str,
    psd_path_in_zip: &str,
    display_diff_path: Option<&str>,
    scale_bits: Option<u32>,
) -> (t: MascotTarget)
    ensures
        t.png_path@ == png_path@,
        t.zip_path@ == zip_path@,
        t.psd_path_in_zip@ == psd_path_in_zip@,
        opt_view(t.display_diff_path) == match display_diff_path {
            Some(d) => Some(d@),
            None => None,
        },
        t.scale_bits == scale_bits,
        t.favorite_ensemble_scale_bits is None,
{
    MascotTarget {
        png_path: String::from_str(png_path),
        scale_bits,
        favorite_ensemble_scale_bits: None,
        zip_path: String::from_str(zip_path),
        psd_path_in_zip: String::from_str(psd_path_in_zip),
        display_diff_path: match display_diff_path {
            Some(d) => Some(String::from_str(d)),
            None => None,
        },
    }
}

} // verus!
