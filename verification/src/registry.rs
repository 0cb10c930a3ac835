//! The registry of running downloads: who can still be signalled.
//!
//! A download is in the registry from the moment it starts until its
//! engine has ended, however it ended. While it is there, a control signal
//! for it is put on its control channel; once it has been taken out, a
//! signal for its identifier finds nothing. The registry also gives out
//! the task identifiers, each one once.

use crate::transfer::DownloadControl;
use std::collections::HashMap;
use tokio::sync::mpsc::UnboundedSender;
use vstd::prelude::*;

verus! {

/// `tokio::sync::mpsc::UnboundedSender`, the sending end of a channel
/// without a bound. Nothing is known of what is inside.
#[verifier::external_type_specification]
#[verifier::external_body]
#[verifier::reject_recursive_types(T)]
pub struct ExUnboundedSender<T>(UnboundedSender<T>);

/// The handle of a running download: the sending end of its control
/// channel.
pub struct ActiveDownload {
    pub control_tx: UnboundedSender<DownloadControl>,
}

/// Why a control signal was not delivered.
#[derive(Clone, Copy, Debug, PartialEq, Eq, Structural)]
pub enum ControlError {
    /// No running download has the identifier: it never ran, or it has
    /// ended.
    NotFound,
    /// The download is registered but its engine no longer listens.
    ChannelClosed,
}

impl ControlError {
    /// The message shown to the user.
    pub open spec fn message_text(self) -> Seq<char> {
        match self {
            ControlError::NotFound => "Download not found"@,
            ControlError::ChannelClosed => "channel closed"@,
        }
    }

    /// Renders the message shown to the user.
    pub fn message(&self) -> (r: String)
        ensures
            r@ == self.message_text(),
    {
        match self {
            ControlError::NotFound => String::from_str("Download not found"),
            ControlError::ChannelClosed => String::from_str("channel closed"),
        }
    }
}

/// Calls `tokio::sync::mpsc::UnboundedSender::send` and says whether the
/// signal was queued. Nothing is claimed of the answer: it is `false`
/// exactly when the receiving end has been closed or dropped, which
/// depends on the engine alone. Tokio ends the process if more than
/// `usize::MAX / 2` signals are queued on one channel at once.
#[verifier::external_body]
fn send_control(handle: &ActiveDownload, control: DownloadControl) -> (queued: bool) {
    handle.control_tx.send(control).is_ok()
}

/// What a signal comes to, given the control that was requested of a
/// registered download, `None` if the download is not registered, and
/// whether its channel took the signal.
pub open spec fn delivery(requested: Option<DownloadControl>, queued: bool) -> Result<
    DownloadControl,
    ControlError,
> {
    match requested {
        None => Err(ControlError::NotFound),
        Some(control) => if queued {
            Ok(control)
        } else {
            Err(ControlError::ChannelClosed)
        },
    }
}

/// What the signal `control` for the download `id` comes to in a registry
/// that holds the downloads `active`, given whether the download's channel
/// took the signal. On success the answer is the control that was queued.
pub open spec fn signal_outcome(
    active: Set<u64>,
    id: u64,
    control: DownloadControl,
    queued: bool,
) -> Result<DownloadControl, ControlError> {
    delivery(
        if active.contains(id) {
            Some(control)
        } else {
            None
        },
        queued,
    )
}

/// Says what a signal comes to, given the control that was requested of a
/// registered download, `None` if the download is not registered, and
/// whether its channel took the signal.
pub fn signal_result(requested: Option<DownloadControl>, queued: bool) -> (r: Result<
    DownloadControl,
    ControlError,
>)
    ensures
        r == delivery(requested, queued),
{
    match requested {
        None => Err(ControlError::NotFound),
        Some(control) => if queued {
            Ok(control)
        } else {
            Err(ControlError::ChannelClosed)
        },
    }
}

/// Puts a requested control on the channel of the download it was
/// requested of. A request that found no download fails with `NotFound`.
/// Whether the channel takes the control is up to the engine at its other
/// end: if it does, the answer is the control that was queued, and if not,
/// the signal fails with `ChannelClosed`.
pub fn deliver(request: Option<(&ActiveDownload, DownloadControl)>) -> (r: Result<
    DownloadControl,
    ControlError,
>)
    ensures
        request is None ==> r == Err::<DownloadControl, ControlError>(ControlError::NotFound),
        request matches Some((_, control)) ==> r == delivery(Some(control), r is Ok),
{
    match request {
        Some((handle, control)) => {
            let queued = send_control(handle, control);
            signal_result(Some(control), queued)
        },
        None => signal_result(None, false),
    }
}

/// The identifier that a new download gets: the wanted one if it is above
/// every identifier given out so far, else the one after the last given
/// out; `None` once the last identifier of all has been given out.
pub open spec fn fresh_id(last: Option<u64>, wanted: u64) -> Option<u64> {
    match last {
        None => Some(wanted),
        Some(given) => if wanted > given {
            Some(wanted)
        } else if given < u64::MAX {
            Some((given + 1) as u64)
        } else {
            None
        },
    }
}

/// The running downloads, each under its task identifier, and the last
/// identifier given out.
pub struct ActiveDownloads {
    downloads: HashMap<u64, ActiveDownload>,
    last_id: Option<u64>,
}

impl ActiveDownloads {
    #[verifier::type_invariant]
    spec fn registered_below_last(self) -> bool {
        forall|id: u64| #[trigger]
            self.downloads@.contains_key(id) ==> (self.last_id matches Some(last) && id <= last)
    }

    /// The handles of the running downloads, each under its identifier.
    pub closed spec fn handles(&self) -> Map<u64, ActiveDownload> {
        self.downloads@
    }

    /// The last identifier given out; `None` while none has been.
    pub closed spec fn last_issued(&self) -> Option<u64> {
        self.last_id
    }

    /// The identifiers of the running downloads.
    pub open spec fn ids(&self) -> Set<u64> {
        self.handles().dom()
    }

    /// The identifier has been given out, or lies below one that has: no
    /// new download gets it.
    pub open spec fn is_spent(&self, id: u64) -> bool {
        self.last_issued() matches Some(last) && id <= last
    }

    /// A registry with no download in it that has given out no identifier.
    pub fn new() -> (r: ActiveDownloads)
        ensures
            r.handles() == Map::<u64, ActiveDownload>::empty(),
            r.last_issued() is None,
    {
        broadcast use vstd::std_specs::hash::group_hash_axioms;

        ActiveDownloads { downloads: HashMap::new(), last_id: None }
    }

    /// Tests whether the download `id` is running.
    pub fn is_active(&self, id: u64) -> (r: bool)
        ensures
            r == self.ids().contains(id),
            r ==> self.is_spent(id),
    {
        broadcast use vstd::std_specs::hash::group_hash_axioms;

        proof {
            use_type_invariant(self);
        }
        self.downloads.contains_key(&id)
    }

    /// Puts a download into the registry under a given identifier, which
    /// counts as given out from now on. A handle that was there under the
    /// same identifier is replaced: there is never more than one per
    /// identifier.
    pub fn register(&mut self, id: u64, handle: ActiveDownload)
        ensures
            final(self).handles() == old(self).handles().insert(id, handle),
            final(self).last_issued() == Some(
                match old(self).last_issued() {
                    Some(last) if last > id => last,
                    _ => id,
                },
            ),
    {
        broadcast use vstd::std_specs::hash::group_hash_axioms;

        proof {
            use_type_invariant(&*self);
        }
        let last = match self.last_id {
            Some(last) if last > id => last,
            _ => id,
        };
        // The map is changed outside the registry and put back, so that
        // every identifier in the registry counts as given out at each step.
        let mut downloads = HashMap::new();
        std::mem::swap(&mut self.downloads, &mut downloads);
        downloads.insert(id, handle);
        self.last_id = Some(last);
        std::mem::swap(&mut self.downloads, &mut downloads);
    }

    /// Puts a download that has just started into the registry under an
    /// identifier that no download of this registry has had before: the
    /// wanted one if it is above all that were given out, else the next
    /// one. Answers with the identifier; `None`, with nothing changed, once
    /// the last identifier of all has been given out.
    pub fn enrol(&mut self, wanted: u64, handle: ActiveDownload) -> (r: Option<u64>)
        ensures
            r == fresh_id(old(self).last_issued(), wanted),
            r matches Some(id) ==> {
                &&& !old(self).is_spent(id)
                &&& !old(self).ids().contains(id)
                &&& final(self).handles() == old(self).handles().insert(id, handle)
                &&& final(self).last_issued() == Some(id)
            },
            r is None ==> final(self).handles() == old(self).handles(),
            r is None ==> final(self).last_issued() == old(self).last_issued(),
    {
        broadcast use vstd::std_specs::hash::group_hash_axioms;

        proof {
            use_type_invariant(&*self);
        }
        let id = match self.last_id {
            None => wanted,
            Some(given) => if wanted > given {
                wanted
            } else if given < u64::MAX {
                given + 1
            } else {
                return None;
            },
        };
        let mut downloads = HashMap::new();
        std::mem::swap(&mut self.downloads, &mut downloads);
        downloads.insert(id, handle);
        self.last_id = Some(id);
        std::mem::swap(&mut self.downloads, &mut downloads);
        Some(id)
    }

    /// Takes a download whose engine has ended out of the registry, and
    /// says whether it was there. Its identifier stays given out.
    pub fn unregister(&mut self, id: u64) -> (was_active: bool)
        ensures
            was_active == old(self).ids().contains(id),
            final(self).handles() == old(self).handles().remove(id),
            final(self).last_issued() == old(self).last_issued(),
    {
        broadcast use vstd::std_specs::hash::group_hash_axioms;

        proof {
            use_type_invariant(&*self);
        }
        let mut downloads = HashMap::new();
        std::mem::swap(&mut self.downloads, &mut downloads);
        let was_active = downloads.remove(&id).is_some();
        std::mem::swap(&mut self.downloads, &mut downloads);
        was_active
    }

    /// Makes the request that a signal puts on a channel: the handle of
    /// the download `id` and the control, or `None` if no such download is
    /// registered.
    pub fn control_request(&self, id: u64, control: DownloadControl) -> (r: Option<
        (&ActiveDownload, DownloadControl),
    >)
        ensures
            r is Some <==> self.ids().contains(id),
            r matches Some((handle, requested)) ==> *handle == self.handles()[id] && requested
                == control,
    {
        broadcast use vstd::std_specs::hash::group_hash_axioms;

        match self.downloads.get(&id) {
            Some(handle) => Some((handle, control)),
            None => None,
        }
    }

    /// Sends a control signal to the download `id`: the control goes on
    /// the channel of that download's handle. Whether the channel takes it
    /// is up to the engine: if it does not, the signal fails with
    /// `ChannelClosed`.
    pub fn signal(&self, id: u64, control: DownloadControl) -> (r: Result<
        DownloadControl,
        ControlError,
    >)
        ensures
            r == signal_outcome(self.ids(), id, control, r is Ok),
    {
        deliver(self.control_request(id, control))
    }
}

/// Asks the download `task_id` to pause.
pub fn pause_download(task_id: u64, active: &ActiveDownloads) -> (r: Result<
    DownloadControl,
    ControlError,
>)
    ensures
        r == signal_outcome(active.ids(), task_id, DownloadControl::Pause, r is Ok),
{
    deliver(active.control_request(task_id, DownloadControl::Pause))
}

/// Asks the download `task_id` to go on after a pause.
pub fn resume_download(task_id: u64, active: &ActiveDownloads) -> (r: Result<
    DownloadControl,
    ControlError,
>)
    ensures
        r == signal_outcome(active.ids(), task_id, DownloadControl::Resume, r is Ok),
{
    deliver(active.control_request(task_id, DownloadControl::Resume))
}

/// Asks the download `task_id` to stop for good.
pub fn cancel_download(task_id: u64, active: &ActiveDownloads) -> (r: Result<
    DownloadControl,
    ControlError,
>)
    ensures
        r == signal_outcome(active.ids(), task_id, DownloadControl::Cancel, r is Ok),
{
    deliver(active.control_request(task_id, DownloadControl::Cancel))
}

/// Removal is final: once a download has been taken out of the registry,
/// as it is when its engine has ended after a cancel, every signal for its
/// identifier fails with `NotFound`, whatever else is registered.
pub proof fn lemma_signal_after_removal(
    active: Set<u64>,
    id: u64,
    control: DownloadControl,
    queued: bool,
)
    ensures
        signal_outcome(active.remove(id), id, control, queued) == Err::<
            DownloadControl,
            ControlError,
        >(ControlError::NotFound),
{
}

/// Taking one download out leaves every other where it was.
pub proof fn lemma_removal_spares_others(
    active: Set<u64>,
    id: u64,
    other: u64,
    control: DownloadControl,
    queued: bool,
)
    requires
        other != id,
    ensures
        signal_outcome(active.remove(id), other, control, queued) == signal_outcome(
            active,
            other,
            control,
            queued,
        ),
{
}

/// Identifiers rise: a download gets an identifier above the last one
/// given out, so no two downloads of one registry ever share one.
pub proof fn lemma_fresh_ids_rise(last: Option<u64>, first_wanted: u64, second_wanted: u64)
    ensures
        fresh_id(last, first_wanted) matches Some(first) ==> {
            &&& (last matches Some(given) ==> first > given)
            &&& (fresh_id(Some(first), second_wanted) matches Some(second) ==> second > first)
        },
{
}

} // verus!
