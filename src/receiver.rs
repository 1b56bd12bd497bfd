//! The state of one receiver connection: which source it follows, and the
//! sender it last saw. Each poll feeds it what discovery found; it decides
//! what to copy.
use vstd::prelude::*;
use vstd::string::StringExecFns;
use crate::record::{SenderInfo, valid_info, is_valid_info};

verus! {

/// Where a connection stands with its sender.
#[derive(Clone, Copy, Debug, PartialEq, Eq, Structural)]
pub enum ReceiverState {
    /// No sender by that name was found at the last poll.
    Idle,
    /// The sender was found, with this size and handle.
    Tracking(SenderInfo),
}

/// The discovery state of a connection to one named source.
pub struct SpoutReceiver {
    sender_name: String,
    state: ReceiverState,
}

/// Discovery found a sender, and its record is valid.
pub open spec fn usable(found: Option<SenderInfo>) -> bool {
    match found {
        Some(info) => valid_info(info),
        None => false,
    }
}

/// What a poll does with what discovery found for the source: a record
/// that fails the validity rule counts as no sender.
pub open spec fn next_state(found: Option<SenderInfo>) -> ReceiverState {
    match found {
        Some(info) => if valid_info(info) {
            ReceiverState::Tracking(info)
        } else {
            ReceiverState::Idle
        },
        None => ReceiverState::Idle,
    }
}

impl SpoutReceiver {
    pub closed spec fn name_view(&self) -> Seq<char> {
        self.sender_name@
    }

    pub closed spec fn state_view(&self) -> ReceiverState {
        self.state
    }

    /// Only a valid sender record is ever tracked.
    pub open spec fn wf(&self) -> bool {
        match self.state_view() {
            ReceiverState::Tracking(info) => valid_info(info),
            ReceiverState::Idle => true,
        }
    }

    /// A connection that follows no source yet.
    pub fn new() -> (r: SpoutReceiver)
        ensures
            r.wf(),
            r.name_view() == Seq::<char>::empty(),
            r.state_view() == ReceiverState::Idle,
    {
        SpoutReceiver { sender_name: String::new(), state: ReceiverState::Idle }
    }

    /// Names the source to follow; the tracked sender is kept.
    pub fn set_receiver_name(&mut self, name: &str) -> (r: bool)
        ensures
            r,
            old(self).wf() ==> final(self).wf(),
            final(self).name_view() == name@,
            final(self).state_view() == old(self).state_view(),
    {
        self.sender_name = String::from_str(name);
        true
    }

    pub fn sender_name(&self) -> (r: &str)
        ensures
            r@ == self.name_view(),
    {
        self.sender_name.as_str()
    }

    pub fn state(&self) -> (r: ReceiverState)
        ensures
            r == self.state_view(),
    {
        self.state
    }

    /// Takes in what discovery found for the source at this poll. With no
    /// source name nothing changes and no frame is due. Otherwise a missing
    /// sender, or a record that fails the validity rule, returns the
    /// connection to `Idle`; a valid one is tracked with its current size and
    /// handle (first sighting, resize or new handle alike), and the size is
    /// written out for the copy that follows.
    pub fn check_receiver(&mut self, found: Option<SenderInfo>, width: &mut u32, height: &mut u32) -> (r:
        bool)
        ensures
            old(self).name_view().len() == 0 ==> !r && final(self).state_view() == old(
                self,
            ).state_view() && *final(width) == *old(width) && *final(height) == *old(height),
            old(self).wf() ==> final(self).wf(),
            old(self).name_view().len() > 0 ==> {
                &&& r == usable(found)
                &&& final(self).state_view() == next_state(found)
                &&& r ==> *final(width) == found->0.width && *final(height) == found->0.height
                &&& !r ==> *final(width) == *old(width) && *final(height) == *old(height)
            },
            final(self).name_view() == old(self).name_view(),
    {
        if self.sender_name.as_str().is_empty() {
            return false;
        }
        match found {
            Some(info) => {
                if is_valid_info(info) {
                    self.state = ReceiverState::Tracking(info);
                    *width = info.width;
                    *height = info.height;
                    true
                } else {
                    self.state = ReceiverState::Idle;
                    false
                }
            },
            None => {
                self.state = ReceiverState::Idle;
                false
            },
        }
    }

    /// The sender to copy from into a frame of `width` x `height`: the one
    /// tracked, when its size is that size and its handle is not zero. A
    /// failed copy changes nothing here, so the next poll tries the same
    /// sender again.
    pub fn receive_texture(&self, width: u32, height: u32) -> (r: Option<SenderInfo>)
        ensures
            r == match self.state_view() {
                ReceiverState::Tracking(info) => if info.width == width && info.height == height
                    && info.handle != 0 {
                    Some(info)
                } else {
                    None
                },
                ReceiverState::Idle => None,
            },
    {
        match self.state {
            ReceiverState::Tracking(info) => {
                if info.width == width && info.height == height && info.handle != 0 {
                    Some(info)
                } else {
                    None
                }
            },
            ReceiverState::Idle => None,
        }
    }
}

/// The handle widened to 64 bits with zeros.
pub open spec fn zero_extended(handle: u32) -> u64 {
    handle as u64
}

/// The handle widened to 64 bits with its top bit copied, as a 32-bit
/// process's handle value reads in a 64-bit one.
pub open spec fn sign_extended(handle: u32) -> u64 {
    if handle >= 0x8000_0000 {
        (handle as int + 0xFFFF_FFFF_0000_0000int) as u64
    } else {
        handle as u64
    }
}

/// The handle values to try when opening a shared texture, in order: the
/// value as announced, then once more as a sign-extended 32-bit value.
pub fn handle_candidates(handle: u32) -> (r: Vec<u64>)
    ensures
        r@ == seq![zero_extended(handle), sign_extended(handle)],
{
    let wide = handle as u64;
    let alternate = if handle >= 0x8000_0000 {
        wide + 0xFFFF_FFFF_0000_0000u64
    } else {
        wide
    };
    let mut r: Vec<u64> = Vec::new();
    r.push(wide);
    r.push(alternate);
    assert(r@ =~= seq![zero_extended(handle), sign_extended(handle)]);
    r
}

/// `S_OK`, `S_FALSE` and `RPC_E_CHANGED_MODE` all leave COM usable on the
/// calling thread.
pub open spec fn com_usable(hr: i32) -> bool {
    hr == 0 || hr == 1 || hr == -2147417850
}

/// Whether the result of initialising COM lets the connection go on to
/// create its device.
pub fn com_init_accepted(hr: i32) -> (r: bool)
    ensures
        r == com_usable(hr),
{
    hr == 0 || hr == 1 || hr == -2147417850i32
}

} // verus!
