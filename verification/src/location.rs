//! What a location message says about the thing that is located.

use vstd::prelude::*;

verus! {

/// The content of a location: where something is.
#[derive(Clone, Debug)]
pub struct LocationContent {
    /// A `geo:` URI representing the location.
    pub uri: String,
    /// The description of the location.
    ///
    /// It should be used to label the location on a map.
    pub description: Option<String>,
    /// A zoom level to specify the displayed area size.
    pub zoom_level: Option<ZoomLevel>,
}

impl LocationContent {
    /// Creates a new `LocationContent` with the given geo URI.
    pub fn new(uri: String) -> (content: Self)
        ensures
            content.uri == uri,
            content.description is None,
            content.zoom_level is None,
    {
        LocationContent { uri, description: None, zoom_level: None }
    }
}

/// A zoom level: a number between 0 and 20.
#[derive(Clone, Copy, Debug)]
pub struct ZoomLevel {
    level: u8,
}

impl ZoomLevel {
    /// The smallest value of a `ZoomLevel`, 0.
    pub const MIN: u8 = 0;

    /// The largest value of a `ZoomLevel`, 20.
    pub const MAX: u8 = 20;

    #[verifier::type_invariant]
    spec fn within_bounds(&self) -> bool {
        self.level <= 20
    }

    /// The level, as a specification.
    pub closed spec fn value(&self) -> u8 {
        self.level
    }

    /// Creates a new `ZoomLevel` with the given value.
    ///
    /// Returns `None` if the value is bigger than 20.
    pub fn new(value: u8) -> (level: Option<Self>)
        ensures
            match level {
                Some(l) => value <= 20 && l.value() == value,
                None => value > 20,
            },
    {
        if value > Self::MAX {
            None
        } else {
            Some(ZoomLevel { level: value })
        }
    }

    /// The value of this `ZoomLevel`.
    pub fn get(self) -> (value: u8)
        ensures
            value == self.value(),
            value <= 20,
    {
        proof {
            use_type_invariant(&self);
        }
        self.level
    }
}

/// The content of an asset: what is located.
#[derive(Clone, Debug)]
pub struct AssetContent {
    /// The type of asset being referred to.
    pub type_: AssetType,
}

impl AssetContent {
    /// Creates a new default `AssetContent`.
    pub fn new() -> (content: Self)
        ensures
            content.type_ == AssetType::Self_,
    {
        AssetContent { type_: AssetType::Self_ }
    }
}

impl Default for AssetContent {
    fn default() -> (content: Self)
        ensures
            content.type_ == AssetType::Self_,
    {
        AssetContent::new()
    }
}

/// The type of an asset.
#[derive(Clone, Debug, PartialEq, Eq)]
pub enum AssetType {
    /// The asset is the sender of the event.
    Self_,
    /// The asset is a location pinned by the sender.
    Pin,
    /// A type of asset that this crate does not know, by its name.
    Custom(String),
}

impl Default for AssetType {
    fn default() -> (asset: Self)
        ensures
            asset == AssetType::Self_,
    {
        AssetType::Self_
    }
}

} // verus!
