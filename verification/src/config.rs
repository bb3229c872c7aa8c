//! Server configuration: the paths of the cursor and window-decoration
//! image assets. How a configuration is read from disk is the
//! embedding application's business; this core only carries the
//! values.

use vstd::prelude::*;

verus! {

/// Paths of the image assets the server draws with.
pub struct Config {
    /// The ordinary cursor image.
    pub normal: String,
    /// The bottom-left resize cursor image.
    pub bottom_left_corner: String,
    /// The bottom-right resize cursor image.
    pub bottom_right_corner: String,
    /// The bottom-edge resize cursor image.
    pub bottom_side: String,
    /// The left-edge resize cursor image.
    pub left_side: String,
    /// The right-edge resize cursor image.
    pub right_side: String,
    /// The maximise button image.
    pub window_max: String,
    /// The maximise button image of an unfocused window.
    pub window_max_unfocused: String,
    /// The close button image.
    pub window_close: String,
    /// The close button image of an unfocused window.
    pub window_close_unfocused: String,
}

impl Default for Config {
    /// The default configuration: every asset path empty.
    fn default() -> (c: Config)
        ensures
            c.normal@ == Seq::<char>::empty(),
            c.bottom_left_corner@ == Seq::<char>::empty(),
            c.bottom_right_corner@ == Seq::<char>::empty(),
            c.bottom_side@ == Seq::<char>::empty(),
            c.left_side@ == Seq::<char>::empty(),
            c.right_side@ == Seq::<char>::empty(),
            c.window_max@ == Seq::<char>::empty(),
            c.window_max_unfocused@ == Seq::<char>::empty(),
            c.window_close@ == Seq::<char>::empty(),
            c.window_close_unfocused@ == Seq::<char>::empty(),
    {
        let c = Config {
            normal: String::new(),
            bottom_left_corner: String::new(),
            bottom_right_corner: String::new(),
            bottom_side: String::new(),
            left_side: String::new(),
            right_side: String::new(),
            window_max: String::new(),
            window_max_unfocused: String::new(),
            window_close: String::new(),
            window_close_unfocused: String::new(),
        };
        proof {
            assert(c.normal@ =~= Seq::<char>::empty());
            assert(c.bottom_left_corner@ =~= Seq::<char>::empty());
            assert(c.bottom_right_corner@ =~= Seq::<char>::empty());
            assert(c.bottom_side@ =~= Seq::<char>::empty());
            assert(c.left_side@ =~= Seq::<char>::empty());
            assert(c.right_side@ =~= Seq::<char>::empty());
            assert(c.window_max@ =~= Seq::<char>::empty());
            assert(c.window_max_unfocused@ =~= Seq::<char>::empty());
            assert(c.window_close@ =~= Seq::<char>::empty());
            assert(c.window_close_unfocused@ =~= Seq::<char>::empty());
        }
        c
    }
}

} // verus!
