//! Vision-based UI element detection: element kinds and the backends without models.

use vstd::prelude::*;
use crate::text::owned;

verus! {

/// Kind of a UI element detected on a screenshot.
#[derive(Debug, Clone, Copy, PartialEq, Eq, Structural)]
pub enum UiElementType {
    Button,
    TextInput,
    Checkbox,
    RadioButton,
    Dropdown,
    Link,
    Image,
    Icon,
    Text,
    Heading,
    Navigation,
    Menu,
    Dialog,
    Tab,
    Slider,
    Toggle,
    SearchBox,
    LoginForm,
    Unknown,
}

/// Vision backend that returns synthetic results, for testing the
/// pipeline without model files.
#[derive(Debug, Clone, Copy)]
pub struct MockVisionBackend;

impl MockVisionBackend {
    /// The backend's name.
    pub fn name(&self) -> (r: &'static str)
        ensures
            r@ == "MockVision"@,
    {
        "MockVision"
    }

    /// The mock backend is always available.
    pub fn is_available(&self) -> (b: bool)
        ensures
            b,
    {
        true
    }
}

/// OmniParser v2 backend. This build has no ONNX runtime, so it is never
/// available.
#[derive(Debug, Clone)]
pub struct OmniParserBackend {
    pub model_dir: String,
}

impl OmniParserBackend {
    /// A backend reading its model from `model_dir`.
    pub fn new(model_dir: &str) -> (r: Self)
        ensures
            r.model_dir@ == model_dir@,
    {
        OmniParserBackend { model_dir: owned(model_dir) }
    }

    /// The backend's name.
    pub fn name(&self) -> (r: &'static str)
        ensures
            r@ == "OmniParser"@,
    {
        "OmniParser"
    }

    /// Never available without an ONNX runtime.
    pub fn is_available(&self) -> (b: bool)
        ensures
            !b,
    {
        false
    }
}

/// Moondream backend. This build has no ONNX runtime, so it is never
/// available.
#[derive(Debug, Clone)]
pub struct MoondreamBackend {
    pub model_dir: String,
}

impl MoondreamBackend {
    /// A backend reading its model from `model_dir`.
    pub fn new(model_dir: &str) -> (r: Self)
        ensures
            r.model_dir@ == model_dir@,
    {
        MoondreamBackend { model_dir: owned(model_dir) }
    }

    /// The backend's name.
    pub fn name(&self) -> (r: &'static str)
        ensures
            r@ == "Moondream"@,
    {
        "Moondream"
    }

    /// Never available without an ONNX runtime.
    pub fn is_available(&self) -> (b: bool)
        ensures
            !b,
    {
        false
    }
}

} // verus!
