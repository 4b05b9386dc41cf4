//! The display strings built for a play-event notification.  The event
//! payload itself is decoded by the caller into plain optional fields;
//! missing fields degrade to a documented default, never to a crash.

use vstd::prelude::*;

use vstd::string::StringExecFns;

verus! {

/// View of an optional string.
pub open spec fn opt_str_view(s: Option<&str>) -> Option<Seq<char>> {
    match s {
        Some(t) => Some(t@),
        None => None,
    }
}

/// The track line: `<track> by <artist>` when both fields were present in
/// the event record, the default `unknown track` otherwise.
pub open spec fn track_info_spec(track: Option<Seq<char>>, artist: Option<Seq<char>>) -> Seq<
    char,
> {
    match (track, artist) {
        (Some(t), Some(a)) => t + " by "@ + a,
        _ => "unknown track"@,
    }
}

/// Builds the track line from the independently optional record fields.
pub fn track_info_message(track_name: Option<&str>, artist_name: Option<&str>) -> (r: String)
    ensures
        r@ == track_info_spec(opt_str_view(track_name), opt_str_view(artist_name)),
{
    match (track_name, artist_name) {
        (Some(t), Some(a)) => String::from_str(t).concat(" by ").concat(a),
        _ => String::from_str("unknown track"),
    }
}

/// The notification line posted for a resolved actor.
pub fn notification_message(handle: &str, track_info: &str) -> (r: String)
    ensures
        r@ == handle@ + " is listening to "@ + track_info@,
{
    String::from_str(handle).concat(" is listening to ").concat(track_info)
}

} // verus!
