//! Loading states the renderer moves through, and the predicates external
//! control uses to decide what it may do next.

use vstd::prelude::*;

verus! {

/// Where the renderer stands in its life cycle.
#[derive(Clone, Copy, PartialEq, Eq, Structural, Debug)]
pub enum SceneLoadingState {
    Idle,
    Initializing,
    InitFailed,
    LoadingScene,
    LoadingAssets,
    LoadingProgress,
    Setting,
    Building,
    Ready,
    Running,
    Paused,
    Unloading,
    Switching,
    HotReloading,
    DisposingAssets,
    DisposingScene,
    DisposingAll,
    Error,
    AssetLoadError,
    SceneParseError,
    RenderError,
    Recovering,
    Restarting,
}

impl SceneLoadingState {
    /// The states in which work is in flight and must not be interrupted.
    pub open spec fn spec_busy(self) -> bool {
        ||| self is Initializing
        ||| self is LoadingScene
        ||| self is LoadingAssets
        ||| self is Setting
        ||| self is Building
        ||| self is Switching
        ||| self is HotReloading
        ||| self is Unloading
        ||| self is DisposingAssets
        ||| self is DisposingScene
        ||| self is DisposingAll
        ||| self is Recovering
        ||| self is Restarting
    }

    /// The states from which a new load may start.
    pub open spec fn spec_can_load(self) -> bool {
        ||| self is Idle
        ||| self is Ready
        ||| self is Running
        ||| self is Paused
        ||| self is Error
        ||| self is InitFailed
        ||| self is AssetLoadError
        ||| self is SceneParseError
        ||| self is RenderError
    }

    /// The error states.
    pub open spec fn spec_error(self) -> bool {
        ||| self is Error
        ||| self is InitFailed
        ||| self is AssetLoadError
        ||| self is SceneParseError
        ||| self is RenderError
    }

    /// Whether work is in flight that should not be interrupted.
    pub fn is_busy(&self) -> (r: bool)
        ensures
            r == self.spec_busy(),
    {
        match self {
            SceneLoadingState::Initializing
            | SceneLoadingState::LoadingScene
            | SceneLoadingState::LoadingAssets
            | SceneLoadingState::Setting
            | SceneLoadingState::Building
            | SceneLoadingState::Switching
            | SceneLoadingState::HotReloading
            | SceneLoadingState::Unloading
            | SceneLoadingState::DisposingAssets
            | SceneLoadingState::DisposingScene
            | SceneLoadingState::DisposingAll
            | SceneLoadingState::Recovering
            | SceneLoadingState::Restarting => true,
            _ => false,
        }
    }

    /// Whether a new load operation may start now.
    pub fn can_load(&self) -> (r: bool)
        ensures
            r == self.spec_can_load(),
    {
        match self {
            SceneLoadingState::Idle
            | SceneLoadingState::Ready
            | SceneLoadingState::Running
            | SceneLoadingState::Paused
            | SceneLoadingState::Error
            | SceneLoadingState::InitFailed
            | SceneLoadingState::AssetLoadError
            | SceneLoadingState::SceneParseError
            | SceneLoadingState::RenderError => true,
            _ => false,
        }
    }

    /// Whether this is an error state.
    pub fn is_error(&self) -> (r: bool)
        ensures
            r == self.spec_error(),
    {
        match self {
            SceneLoadingState::Error
            | SceneLoadingState::InitFailed
            | SceneLoadingState::AssetLoadError
            | SceneLoadingState::SceneParseError
            | SceneLoadingState::RenderError => true,
            _ => false,
        }
    }
}

impl Default for SceneLoadingState {
    fn default() -> (r: SceneLoadingState)
        ensures
            r is Idle,
    {
        SceneLoadingState::Idle
    }
}

} // verus!
