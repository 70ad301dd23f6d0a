//! The constraint record that each node of the layout tree carries.

use vstd::prelude::*;

verus! {

/// Which way the rectangles should flex
#[derive(Debug, Copy, Clone, PartialEq, Eq, Structural)]
pub enum FlexDirection {
    /// Children share the height of their parent and are stacked top to bottom.
    Column,
    /// Children share the width of their parent and are placed left to right.
    Row,
}

/// Size constraints of one node, in whole pixels, plus a payload of the caller.
#[derive(Debug, Copy, Clone)]
pub struct NodeData<T> {
    /// Minimum width of this node
    pub min_width: Option<i64>,
    /// Minimum height of this node
    pub min_height: Option<i64>,
    /// Maximum width of this node
    pub max_width: Option<i64>,
    /// Maximum height of this node
    pub max_height: Option<i64>,
    /// Width of the node (must be initialized for the root node)
    pub width: Option<i64>,
    /// Height of the node (must be initialized for the root node)
    pub height: Option<i64>,
    /// What direction the children should flex to
    pub flex_direction: FlexDirection,
    /// Abstract data of the node, defined by the renderer / application
    pub data: T,
}

impl<T> NodeData<T> {
    /// Creates a new node
    pub fn new(
        min_width: Option<i64>,
        min_height: Option<i64>,
        max_width: Option<i64>,
        max_height: Option<i64>,
        width: Option<i64>,
        height: Option<i64>,
        flex_direction: FlexDirection,
        data: T,
    ) -> (n: Self)
        ensures
            n == (NodeData {
                min_width,
                min_height,
                max_width,
                max_height,
                width,
                height,
                flex_direction,
                data,
            }),
    {
        Self { min_width, min_height, max_width, max_height, width, height, flex_direction, data }
    }

    /// Creates a node without any size constraint
    pub fn empty(flex_direction: FlexDirection, data: T) -> (n: Self)
        ensures
            n == (NodeData {
                min_width: None,
                min_height: None,
                max_width: None,
                max_height: None,
                width: None,
                height: None,
                flex_direction,
                data,
            }),
    {
        Self {
            min_width: None,
            min_height: None,
            max_width: None,
            max_height: None,
            width: None,
            height: None,
            flex_direction,
            data,
        }
    }
}

} // verus!
