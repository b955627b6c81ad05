//! The strategy that decides how annotations on handlers are found and
//! checked, with its default functions, which find and check nothing.
use vstd::prelude::*;
use crate::json::json_null;

verus! {

/// Whether a handler carries an annotation.
pub trait SaIsAnnotationPresentFunction: Send + Sync {
    /// Whether `method` carries the annotation named `annot_cls`.
    fn is_annotation_present(&self, method: &(), annot_cls: &str) -> bool;
}

/// The annotation a handler carries.
pub trait SaGetAnnotationFunction: Send + Sync {
    /// The annotation named `annot_cls` on `method`, as JSON.
    fn get_annotation(&self, method: &(), annot_cls: &str) -> serde_json::Value;
}

/// The check of the annotations of one handler.
pub trait SaCheckElementAnnotationFunction: Send + Sync {
    /// Checks the annotations of `method`.
    fn check_element_annotation(&self, method: &());
}

/// The check of a group of handlers of which one must pass.
pub trait SaCheckOrAnnotationFunction: Send + Sync {
    /// Checks the group `methods`.
    fn check_or_annotation(&self, methods: &[()]);
}

/// The default presence function: no handler carries an annotation.
pub struct NoAnnotation;

impl SaIsAnnotationPresentFunction for NoAnnotation {
    fn is_annotation_present(&self, method: &(), annot_cls: &str) -> (r: bool)
        ensures
            !r,
    {
        false
    }
}

/// The default lookup: every annotation reads as JSON `null`.
pub struct NullAnnotation;

impl SaGetAnnotationFunction for NullAnnotation {
    fn get_annotation(&self, method: &(), annot_cls: &str) -> serde_json::Value {
        json_null()
    }
}

/// The default checks: nothing is checked.
pub struct NoCheck;

impl SaCheckElementAnnotationFunction for NoCheck {
    fn check_element_annotation(&self, method: &()) {
    }
}

impl SaCheckOrAnnotationFunction for NoCheck {
    fn check_or_annotation(&self, methods: &[()]) {
    }
}

/// How annotations are found and checked: by default each function is a
/// boxed trait object that an application may replace.
pub struct SaAnnotationStrategy<
    P = Box<dyn SaIsAnnotationPresentFunction>,
    G = Box<dyn SaGetAnnotationFunction>,
    C = Box<dyn SaCheckElementAnnotationFunction>,
    O = Box<dyn SaCheckOrAnnotationFunction>,
> {
    /// Whether a handler carries an annotation.
    pub is_annotation_present: P,
    /// The annotation a handler carries.
    pub get_annotation: G,
    /// The check of one handler's annotations.
    pub check_element_annotation: C,
    /// The check of a group of handlers of which one must pass.
    pub check_or_annotation: O,
}

impl<P, G, C, O> SaAnnotationStrategy<P, G, C, O> {
    /// A strategy made of these functions.
    pub fn new(is_annotation_present: P, get_annotation: G, check_element_annotation: C, check_or_annotation: O) -> (r: Self)
        ensures
            r.is_annotation_present == is_annotation_present,
            r.get_annotation == get_annotation,
            r.check_element_annotation == check_element_annotation,
            r.check_or_annotation == check_or_annotation,
    {
        SaAnnotationStrategy { is_annotation_present, get_annotation, check_element_annotation, check_or_annotation }
    }
}

impl SaAnnotationStrategy<NoAnnotation, NullAnnotation, NoCheck, NoCheck> {
    /// The default strategy: no handler carries an annotation
    /// ([`NoAnnotation`]), every annotation reads as `null`
    /// ([`NullAnnotation`]) and nothing is checked ([`NoCheck`]).
    pub fn default_impl() -> (r: Self)
        ensures
            r.is_annotation_present == NoAnnotation,
            r.get_annotation == NullAnnotation,
            r.check_element_annotation == NoCheck,
            r.check_or_annotation == NoCheck,
    {
        Self::new(NoAnnotation, NullAnnotation, NoCheck, NoCheck)
    }
}

} // verus!
