//! What the runtime tells the user about devices: the name it shows for a
//! device whose presence changed or that asks to pair, and the log line for
//! a presence change; and which messages a failed LAN delivery hands to
//! the cloud relay.
use vstd::prelude::*;

use crate::text::{chars_of, trim, trim_chars};
use vstd::string::StringExecFns;

verus! {

/// The name shown for a device: the name cached for it, else the name its
/// presence report carries, else its id.
pub open spec fn shown_name(cached: Option<Seq<char>>, reported: Option<Seq<char>>, device_id: Seq<char>) -> Seq<
    char,
> {
    match cached {
        Some(name) => name,
        None => match reported {
            Some(name) => name,
            None => device_id,
        },
    }
}

/// The name shown for a device with id `device_id`, given the name cached
/// for it and the name its presence report carries, if any.
pub fn device_display_name(cached: Option<String>, reported: Option<String>, device_id: String) -> (r: String)
    ensures
        r@ == shown_name(
            match cached {
                Some(c) => Some(c@),
                None => None,
            },
            match reported {
                Some(p) => Some(p@),
                None => None,
            },
            device_id@,
        ),
{
    match cached {
        Some(name) => name,
        None => match reported {
            Some(name) => name,
            None => device_id,
        },
    }
}

/// The name shown for a device that asks to pair: the name it gave, unless
/// that is blank, then its id.
pub fn pairing_display_name(name: &str, device_id: &str) -> (r: String)
    ensures
        r@ == (if trim(name@).len() == 0 {
            device_id@
        } else {
            name@
        }),
{
    let chars = chars_of(name);
    let trimmed = trim_chars(chars.as_slice());
    if trimmed.len() == 0 {
        device_id.to_owned()
    } else {
        name.to_owned()
    }
}

/// The log line for a device that came online or went offline.
pub fn presence_log_line(device_name: &str, online: bool) -> (r: String)
    ensures
        r@ == device_name@ + (if online {
            " is online"@
        } else {
            " is offline"@
        }),
{
    let mut line = device_name.to_owned();
    if online {
        line.append(" is online");
    } else {
        line.append(" is offline");
    }
    line
}

/// The messages whose delivery over the LAN failed that go out again through
/// the cloud relay: all of them while the cloud is connected, none
/// otherwise.
pub fn relay_after_lan_failure<T>(cloud_connected: bool, messages: Vec<T>) -> (r: Vec<T>)
    ensures
        r@ == (if cloud_connected {
            messages@
        } else {
            Seq::<T>::empty()
        }),
{
    if cloud_connected {
        messages
    } else {
        Vec::new()
    }
}

} // verus!
