//! The manifest as the slide loader reads it: no params schema, sounds or cassette art.
//!
//! The shared reference types and the transition-name parser are the ones of
//! [`crate::manifest`].

use vstd::prelude::*;

pub use crate::manifest::{
    parse_transition_kind, AssetRef, DisplayConfig, ManifestRequirements, ManifestShaders,
    ManifestSidecar, SceneAssetRef, MAX_DISPLAY_DURATION_SECONDS, MIN_DISPLAY_DURATION_SECONDS,
};

use crate::manifest::{
    common_issue_message, asset_paths, either, escape_issue, escapes_package, first_escaping_asset_path,
    first_escaping_scene_path, first_invalid_preopen_of, path_escapes_package, scene_paths,
    sidecar_issue, ManifestIssue,
};
use crate::text::same_text;

verus! {

/// Slide manifest structure.
#[derive(Debug, Clone, Default)]
pub struct SlideManifest {
    /// Slide name.
    pub name: Option<String>,
    /// Slide version.
    pub version: Option<String>,
    /// Slide author.
    pub author: Option<String>,
    /// Slide description.
    pub description: Option<String>,
    /// ABI version (must match engine ABI).
    pub abi_version: Option<u32>,
    /// Scene space ("screen_2d" or "world_3d").
    pub scene_space: Option<String>,
    /// Asset references.
    pub assets: Option<ManifestAssets>,
    /// Shader overrides.
    pub shaders: Option<ManifestShaders>,
    /// Display configuration.
    pub display: Option<DisplayConfig>,
    /// Hardware requirements.
    pub requirements: Option<ManifestRequirements>,
    /// Sidecar configuration.
    pub sidecar: Option<ManifestSidecar>,
}

/// Asset references in a manifest.
#[derive(Debug, Clone, Default)]
pub struct ManifestAssets {
    /// Texture assets.
    pub textures: Vec<AssetRef>,
    /// Mesh assets.
    pub meshes: Vec<AssetRef>,
    /// Scene assets.
    pub scenes: Vec<SceneAssetRef>,
}

/// Manifest validation errors.
#[derive(Debug, Clone, PartialEq, Eq)]
pub enum ManifestValidationError {
    /// ABI version mismatch.
    AbiVersion {
        /// The ABI version found in the manifest.
        found: u32,
        /// The expected ABI version from the engine.
        expected: u32,
    },
    /// Unknown scene space.
    UnknownSceneSpace(String),
    /// Path escapes package directory.
    PathEscapesPackage(String),
    /// Duration out of bounds.
    DurationSecondsOutOfBounds(u32),
    /// Invalid sidecar preopen.
    InvalidSidecarPreopen(String),
}

impl View for ManifestValidationError {
    type V = ManifestIssue;

    open spec fn view(&self) -> ManifestIssue {
        match self {
            ManifestValidationError::AbiVersion { found, expected } => ManifestIssue::AbiVersion {
                found: *found,
                expected: *expected,
            },
            ManifestValidationError::UnknownSceneSpace(s) => ManifestIssue::UnknownSceneSpace(s@),
            ManifestValidationError::PathEscapesPackage(s) => ManifestIssue::PathEscapesPackage(s@),
            ManifestValidationError::DurationSecondsOutOfBounds(d) => {
                ManifestIssue::DurationSecondsOutOfBounds(*d)
            },
            ManifestValidationError::InvalidSidecarPreopen(s) => ManifestIssue::InvalidSidecarPreopen(
                s@,
            ),
        }
    }
}

impl ManifestValidationError {
    /// The error's text.
    pub fn message(&self) -> (r: String)
        ensures
            r@ == crate::manifest::issue_text(self@),
    {
        match self {
            ManifestValidationError::AbiVersion { found, expected } => common_issue_message(
                Some((*found, *expected)),
                None,
                None,
                None,
                None,
            ),
            ManifestValidationError::UnknownSceneSpace(s) => common_issue_message(
                None,
                Some(s.as_str()),
                None,
                None,
                None,
            ),
            ManifestValidationError::PathEscapesPackage(p) => common_issue_message(
                None,
                None,
                Some(p.as_str()),
                None,
                None,
            ),
            ManifestValidationError::DurationSecondsOutOfBounds(d) => common_issue_message(
                None,
                None,
                None,
                Some(*d),
                None,
            ),
            ManifestValidationError::InvalidSidecarPreopen(s) => common_issue_message(
                None,
                None,
                None,
                None,
                Some(s.as_str()),
            ),
        }
    }
}

/// The display duration a manifest declares, if any.
pub open spec fn declared_duration(m: SlideManifest) -> Option<u32> {
    match m.display {
        Some(d) => d.duration_seconds,
        None => None,
    }
}

/// The issue with the asset paths of a manifest: textures, then meshes, then scenes.
pub open spec fn assets_issue(m: SlideManifest) -> Option<ManifestIssue> {
    match m.assets {
        None => None,
        Some(a) => either(
            escape_issue(asset_paths(a.textures@)),
            either(escape_issue(asset_paths(a.meshes@)), escape_issue(scene_paths(a.scenes@))),
        ),
    }
}

/// The issue with the shader paths of a manifest, vertex first.
pub open spec fn shaders_issue(m: SlideManifest) -> Option<ManifestIssue> {
    match m.shaders {
        None => None,
        Some(s) => either(
            match s.vertex {
                Some(v) if escapes_package(v@) => Some(ManifestIssue::PathEscapesPackage(v@)),
                _ => None,
            },
            match s.fragment {
                Some(f) if escapes_package(f@) => Some(ManifestIssue::PathEscapesPackage(f@)),
                _ => None,
            },
        ),
    }
}

/// The first issue `validate` reports for a manifest, if any, in the order the checks run.
pub open spec fn manifest_issue(m: SlideManifest, abi_version: u32) -> Option<ManifestIssue> {
    let abi = match m.abi_version {
        Some(found) if found != abi_version => Some(
            ManifestIssue::AbiVersion { found, expected: abi_version },
        ),
        _ => None,
    };
    let scene = match m.scene_space {
        Some(s) if s@ != "screen_2d"@ && s@ != "world_3d"@ => Some(
            ManifestIssue::UnknownSceneSpace(s@),
        ),
        _ => None,
    };
    let duration = match declared_duration(m) {
        Some(d) if d < MIN_DISPLAY_DURATION_SECONDS || d > MAX_DISPLAY_DURATION_SECONDS => Some(
            ManifestIssue::DurationSecondsOutOfBounds(d),
        ),
        _ => None,
    };
    let sidecar = match m.sidecar {
        Some(s) => sidecar_issue(s),
        None => None,
    };
    either(
        abi,
        either(scene, either(assets_issue(m), either(shaders_issue(m), either(duration, sidecar)))),
    )
}

impl SlideManifest {
    /// Validates the manifest against the engine's ABI version.
    ///
    /// Checks, in order: the ABI version, the scene space, asset paths,
    /// shader paths, the display duration and sidecar preopens.
    pub fn validate(&self, abi_version: u32) -> (r: Result<(), ManifestValidationError>)
        ensures
            match r {
                Ok(()) => manifest_issue(*self, abi_version) is None,
                Err(e) => manifest_issue(*self, abi_version) == Some(e@),
            },
    {
        if let Some(found) = self.abi_version {
            if found != abi_version {
                return Err(ManifestValidationError::AbiVersion { found, expected: abi_version });
            }
        }
        if let Some(scene_space) = &self.scene_space {
            if !same_text(scene_space.as_str(), "screen_2d") && !same_text(
                scene_space.as_str(),
                "world_3d",
            ) {
                return Err(ManifestValidationError::UnknownSceneSpace(scene_space.clone()));
            }
        }
        if let Some(assets) = &self.assets {
            if let Some(p) = first_escaping_asset_path(&assets.textures) {
                return Err(ManifestValidationError::PathEscapesPackage(p));
            }
            if let Some(p) = first_escaping_asset_path(&assets.meshes) {
                return Err(ManifestValidationError::PathEscapesPackage(p));
            }
            if let Some(p) = first_escaping_scene_path(&assets.scenes) {
                return Err(ManifestValidationError::PathEscapesPackage(p));
            }
        }
        if let Some(shaders) = &self.shaders {
            if let Some(vertex) = &shaders.vertex {
                if path_escapes_package(vertex.as_str()) {
                    return Err(ManifestValidationError::PathEscapesPackage(vertex.clone()));
                }
            }
            if let Some(fragment) = &shaders.fragment {
                if path_escapes_package(fragment.as_str()) {
                    return Err(ManifestValidationError::PathEscapesPackage(fragment.clone()));
                }
            }
        }
        if let Some(duration_seconds) = self.display_duration_seconds() {
            if duration_seconds < MIN_DISPLAY_DURATION_SECONDS || duration_seconds
                > MAX_DISPLAY_DURATION_SECONDS {
                return Err(ManifestValidationError::DurationSecondsOutOfBounds(duration_seconds));
            }
        }
        if let Some(sidecar) = &self.sidecar {
            if let Some(p) = first_invalid_preopen_of(sidecar) {
                return Err(ManifestValidationError::InvalidSidecarPreopen(p));
            }
        }
        Ok(())
    }

    /// Returns the transition-in kind declared in the display section.
    pub fn transition_in_kind(&self) -> (r: Option<crate::transition::TransitionKind>)
        ensures
            r == match self.display {
                Some(d) => crate::manifest::transition_of(d.transition_in),
                None => None,
            },
    {
        match &self.display {
            Some(display) => match &display.transition_in {
                Some(name) => Some(parse_transition_kind(name.as_str())),
                None => None,
            },
            None => None,
        }
    }

    /// Returns the transition-out kind declared in the display section.
    pub fn transition_out_kind(&self) -> (r: Option<crate::transition::TransitionKind>)
        ensures
            r == match self.display {
                Some(d) => crate::manifest::transition_of(d.transition_out),
                None => None,
            },
    {
        match &self.display {
            Some(display) => match &display.transition_out {
                Some(name) => Some(parse_transition_kind(name.as_str())),
                None => None,
            },
            None => None,
        }
    }

    /// Returns the display duration in seconds.
    pub fn display_duration_seconds(&self) -> (r: Option<u32>)
        ensures
            r == declared_duration(*self),
    {
        match &self.display {
            Some(display) => display.duration_seconds,
            None => None,
        }
    }

    /// Returns the scene with the requested id, or the first scene when no id is given.
    #[verifier::loop_isolation(false)]
    pub fn scene_asset(&self, requested_id: Option<&str>) -> (r: Option<&SceneAssetRef>)
        ensures
            self.assets is None ==> r is None,
            self.assets matches Some(a) ==> match requested_id {
                Some(id) => {
                    let i = crate::manifest::scene_index_with_id(a.scenes@, id@);
                    &&& (r is None <==> i < 0)
                    &&& (r matches Some(s) ==> 0 <= i && *s == a.scenes@[i])
                },
                None => {
                    &&& (r is None <==> a.scenes@.len() == 0)
                    &&& (r matches Some(s) ==> *s == a.scenes@[0])
                },
            },
    {
        let assets = match &self.assets {
            Some(a) => a,
            None => return None,
        };
        match requested_id {
            None => {
                if assets.scenes.len() == 0 {
                    None
                } else {
                    Some(&assets.scenes[0])
                }
            },
            Some(id) => {
                let scenes = &assets.scenes;
                let mut i: usize = 0;
                assert(scenes@.skip(0) == scenes@);
                while i < scenes.len()
                    invariant
                        i <= scenes@.len(),
                        crate::manifest::scene_index_with_id(scenes@, id@) == if crate::manifest::scene_index_with_id(
                            scenes@.skip(i as int),
                            id@,
                        ) < 0 {
                            -1
                        } else {
                            crate::manifest::scene_index_with_id(scenes@.skip(i as int), id@) + i
                        },
                    decreases scenes@.len() - i,
                {
                    assert(scenes@.skip(i as int)[0] == scenes@[i as int]);
                    assert(scenes@.skip(i as int).drop_first() == scenes@.skip(i + 1));
                    if let Some(sid) = &scenes[i].id {
                        if same_text(sid.as_str(), id) {
                            return Some(&scenes[i]);
                        }
                    }
                    i += 1;
                }
                None
            },
        }
    }
}


/// A manifest that validates against `abi_version` keeps every asset inside its package:
/// no texture, mesh or scene path, and no vertex or fragment shader path, is rooted or
/// climbs out through a `..` component. It also declares no other ABI version, no scene
/// space but `screen_2d` or `world_3d`, and no display duration outside 1 to 300 seconds.
pub proof fn valid_manifest_stays_in_package(m: SlideManifest, abi_version: u32)
    requires
        manifest_issue(m, abi_version) is None,
    ensures
        m.abi_version matches Some(found) ==> found == abi_version,
        m.assets matches Some(a) ==> {
            &&& forall|i: int| 0 <= i < a.textures@.len() ==> !escapes_package(#[trigger] a.textures@[i].path@)
            &&& forall|i: int| 0 <= i < a.meshes@.len() ==> !escapes_package(#[trigger] a.meshes@[i].path@)
            &&& forall|i: int| 0 <= i < a.scenes@.len() ==> !escapes_package(#[trigger] a.scenes@[i].path@)
        },
        m.shaders matches Some(sh) ==> {
            &&& sh.vertex matches Some(v) ==> !escapes_package(v@)
            &&& sh.fragment matches Some(f) ==> !escapes_package(f@)
        },
        m.display matches Some(d) ==> (d.duration_seconds matches Some(secs) ==> 1 <= secs <= 300),
        m.scene_space matches Some(sp) ==> (sp@ == "screen_2d"@ || sp@ == "world_3d"@),
{
    if let Some(a) = m.assets {
        let t = asset_paths(a.textures@);
        let me = asset_paths(a.meshes@);
        let sc = scene_paths(a.scenes@);
        crate::manifest::no_first_escaping(t);
        crate::manifest::no_first_escaping(me);
        crate::manifest::no_first_escaping(sc);
        assert forall|i: int| 0 <= i < a.textures@.len() implies !escapes_package(#[trigger] a.textures@[i].path@) by {
            assert(t[i] == a.textures@[i].path@);
        }
        assert forall|i: int| 0 <= i < a.meshes@.len() implies !escapes_package(#[trigger] a.meshes@[i].path@) by {
            assert(me[i] == a.meshes@[i].path@);
        }
        assert forall|i: int| 0 <= i < a.scenes@.len() implies !escapes_package(#[trigger] a.scenes@[i].path@) by {
            assert(sc[i] == a.scenes@[i].path@);
        }
    }
}

} // verus!
