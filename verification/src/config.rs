//! Application configuration consumed by the core: the remote server base
//! address (empty means synchronization is disabled) and the widget layout
//! numbers the presentation layer reads. Loading and saving the file live
//! with the unverified shell; the defaults and the shape live here.

use vstd::prelude::*;

verus! {

/// The configuration surface. An empty `multiplayer_server_url` disables
/// synchronization.
pub struct AppConfig {
    pub multiplayer_server_url: String,
    pub widget_y_offset: i32,
    pub widget_unit_size: i32,
}

/// The default server address: empty, meaning multiplayer is disabled.
pub fn default_server_url() -> (r: String)
    ensures
        r@.len() == 0,
{
    String::new()
}

/// The default vertical offset of the widget above the screen edge.
pub fn default_widget_offset() -> (r: i32)
    ensures
        r == 100,
{
    100
}

/// The default drawn size of one unit in the widget.
pub fn default_widget_unit_size() -> (r: i32)
    ensures
        r == 6,
{
    6
}

impl Default for AppConfig {
    fn default() -> (r: Self)
        ensures
            r.multiplayer_server_url@.len() == 0,
            r.widget_y_offset == 100,
            r.widget_unit_size == 6,
    {
        AppConfig {
            multiplayer_server_url: default_server_url(),
            widget_y_offset: default_widget_offset(),
            widget_unit_size: default_widget_unit_size(),
        }
    }
}

} // verus!
