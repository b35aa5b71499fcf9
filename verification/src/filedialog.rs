//! The state of a native file dialog driven from an immediate-mode GUI.
//!
//! The dialog itself runs on a worker thread (started by the caller); this
//! value keeps the receiving end of the one-slot channel that the worker
//! answers on, and the callback that the worker is to run when the dialog
//! closes. Polling with [`ImNativeFileDialog::check`] never blocks.
use vstd::prelude::*;

verus! {

#[verifier::external_type_specification]
#[verifier::external_body]
#[verifier::reject_recursive_types(T)]
pub struct ExReceiver<T>(crossbeam_channel::Receiver<T>);

#[verifier::external_type_specification]
#[verifier::external_body]
#[verifier::reject_recursive_types(T)]
pub struct ExSender<T>(crossbeam_channel::Sender<T>);

#[verifier::external_type_specification]
#[verifier::external_body]
pub struct ExDialogError(native_dialog::Error);

/// Error of opening a dialog.
#[derive(Debug, PartialEq, Eq, Structural, Clone, Copy)]
pub enum ImNativeDialogError {
    /// The dialog is already open.
    AlreadyOpen,
}

impl ImNativeDialogError {
    /// The human-readable description of the error.
    pub fn message(&self) -> (s: &'static str)
        ensures
            s@ == "The dialog is already open."@,
    {
        match self {
            ImNativeDialogError::AlreadyOpen => "The dialog is already open.",
        }
    }
}

/// What one non-blocking look at a channel found.
pub enum Poll<X> {
    /// A message was waiting; it has been taken out.
    Ready(X),
    /// No message yet, and the sending side is still alive.
    Empty,
    /// No message, and the sending side has gone away.
    Disconnected,
}

/// The sending end of a bounded channel, with the identity and capacity of
/// its channel.
#[verifier::reject_recursive_types(X)]
pub struct AnswerSender<X> {
    sender: crossbeam_channel::Sender<X>,
    channel: Ghost<int>,
    capacity: Ghost<nat>,
}

/// The receiving end of a bounded channel, with the identity of its channel.
#[verifier::reject_recursive_types(X)]
pub struct AnswerReceiver<X> {
    receiver: crossbeam_channel::Receiver<X>,
    channel: Ghost<int>,
    taken: Ghost<Seq<Poll<X>>>,
}

impl<X> AnswerSender<X> {
    /// The channel that this end sends into.
    pub closed spec fn channel(self) -> int {
        self.channel@
    }

    /// How many messages the channel holds at most.
    pub closed spec fn capacity(self) -> nat {
        self.capacity@
    }

    /// The crossbeam sender itself, for the thread that answers.
    pub fn into_sender(self) -> crossbeam_channel::Sender<X> {
        self.sender
    }
}

impl<X> AnswerReceiver<X> {
    /// The channel that this end receives from.
    pub closed spec fn channel(self) -> int {
        self.channel@
    }

    /// What the looks into the channel took out, in order: each message, and
    /// each finding that the sender had gone (looks that found nothing are
    /// not recorded).
    pub closed spec fn taken(self) -> Seq<Poll<X>> {
        self.taken@
    }
}

/// Makes a bounded channel of capacity `cap` with `crossbeam_channel::bounded`
/// and hands out its two ends, each marked with the same channel. What one
/// end receives is what the other sent; that is not modelled.
#[verifier::external_body]
fn bounded_channel<X>(cap: usize) -> (ends: (AnswerSender<X>, AnswerReceiver<X>))
    requires
        1 <= cap <= 1024,
    ensures
        ends.0.channel() == ends.1.channel(),
        ends.0.capacity() == cap,
        ends.1.taken() == Seq::<Poll<X>>::empty(),
{
    let (sender, receiver) = crossbeam_channel::bounded(cap);
    (
        AnswerSender { sender, channel: Ghost(0int), capacity: Ghost(cap as nat) },
        AnswerReceiver { receiver, channel: Ghost(0int), taken: Ghost(Seq::empty()) },
    )
}

/// A one-slot channel for a dialog's answer: two ends of one channel.
pub fn answer_channel<X>() -> (ends: (AnswerSender<X>, AnswerReceiver<X>))
    ensures
        ends.0.channel() == ends.1.channel(),
        ends.0.capacity() == 1,
        ends.1.taken() == Seq::<Poll<X>>::empty(),
{
    bounded_channel(1)
}

/// Looks once into the channel with `crossbeam_channel::Receiver::try_recv`,
/// turning its error variants into [`Poll`]'s. What it finds depends on the
/// thread at the other end, so that is not stated; what it finds is recorded
/// in the receiver's log unless it found nothing.
#[verifier::external_body]
fn poll_channel<X>(receiver: &mut AnswerReceiver<X>) -> (p: Poll<X>)
    ensures
        p is Empty ==> *final(receiver) == *old(receiver),
        !(p is Empty) ==> final(receiver).channel() == old(receiver).channel()
            && final(receiver).taken() == old(receiver).taken().push(p),
{
    match receiver.receiver.try_recv() {
        Ok(x) => Poll::Ready(x),
        Err(crossbeam_channel::TryRecvError::Empty) => Poll::Empty,
        Err(crossbeam_channel::TryRecvError::Disconnected) => Poll::Disconnected,
    }
}

/// A call that can change whether a dialog is open.
#[derive(Debug, Clone, Copy, PartialEq, Eq, Structural)]
pub enum DialogCall {
    /// `show`, whether it opened the dialog or was refused.
    Show,
    /// `check`, with whether it handed out an answer.
    Check { answered: bool },
    /// `with_callback`.
    SetCallback,
}

/// The call is a `show`.
pub open spec fn is_show(call: DialogCall) -> bool {
    call is Show
}

/// The call is a `check` that handed out an answer.
pub open spec fn answers(call: DialogCall) -> bool {
    call matches DialogCall::Check { answered } && answered
}

/// Whether a dialog is open after `call` when it was open (`was_open`)
/// before: `show` leaves it open (it opens it, or is refused because it is
/// open already), a `check` that hands out an answer closes it, and any
/// other call keeps it as it was.
pub open spec fn open_after(was_open: bool, call: DialogCall) -> bool {
    if is_show(call) {
        true
    } else if answers(call) {
        false
    } else {
        was_open
    }
}

/// Whether a new dialog is open after the calls `calls`, in order.
pub open spec fn open_after_calls(calls: Seq<DialogCall>) -> bool
    decreases calls.len(),
{
    if calls.len() == 0 {
        false
    } else {
        open_after(open_after_calls(calls.drop_last()), calls.last())
    }
}

/// A dialog is open exactly between a `show` and the first `check` after it
/// that hands out an answer: after any calls on a new dialog, it is open if
/// and only if some `show` was made and no later `check` answered.
pub proof fn law_open_between_show_and_answer(calls: Seq<DialogCall>)
    ensures
        open_after_calls(calls) <==> exists|i: int|
            0 <= i < calls.len() && #[trigger] is_show(calls[i]) && forall|j: int|
                i < j < calls.len() ==> !#[trigger] answers(calls[j]),
    decreases calls.len(),
{
    if calls.len() > 0 {
        let pre = calls.drop_last();
        let n = calls.len() - 1;
        law_open_between_show_and_answer(pre);
        if is_show(calls[n]) {
            assert(is_show(calls[n]) && forall|j: int| n < j < calls.len() ==> !#[trigger] answers(calls[j]));
        } else if answers(calls[n]) {
            assert forall|i: int| 0 <= i < calls.len() && #[trigger] is_show(calls[i]) implies exists|j: int|
                i < j < calls.len() && #[trigger] answers(calls[j]) by {
                assert(i < n);
                assert(answers(calls[n]));
            }
        } else {
            if open_after_calls(pre) {
                let i = choose|i: int|
                    0 <= i < pre.len() && #[trigger] is_show(pre[i]) && forall|j: int|
                        i < j < pre.len() ==> !#[trigger] answers(pre[j]);
                assert(pre[i] == calls[i]);
                assert forall|j: int| i < j < calls.len() implies !#[trigger] answers(calls[j]) by {
                    if j < n {
                        assert(pre[j] == calls[j]);
                    }
                }
            } else {
                assert forall|i: int| 0 <= i < calls.len() && #[trigger] is_show(calls[i]) implies exists|j: int|
                    i < j < calls.len() && #[trigger] answers(calls[j]) by {
                    assert(i < n);
                    assert(pre[i] == calls[i]);
                    let j = choose|j: int| i < j < pre.len() && #[trigger] answers(pre[j]);
                    assert(pre[j] == calls[j]);
                }
            }
        }
    }
}

/// `r` is what `check` hands out for the look `look` into the channel: the
/// message found, nothing when nothing was there, and `T::default()` when the
/// sender had gone.
pub open spec fn answer_for<T: Default>(
    look: Poll<Result<T, native_dialog::Error>>,
    r: Option<Result<T, native_dialog::Error>>,
) -> bool {
    match look {
        Poll::Ready(x) => r == Some(x),
        Poll::Empty => r is None,
        Poll::Disconnected => r matches Some(Ok(v)) && call_ensures(T::default, (), v),
    }
}

/// `check` hands out exactly what its look found: a message that was waiting
/// comes out unchanged (whether or not the sender is still there), nothing
/// comes out only when nothing was waiting, and an answer that is not a
/// message comes only from a sender that went away.
pub proof fn law_check_hands_out_what_it_found<T: Default>(
    look: Poll<Result<T, native_dialog::Error>>,
    r: Option<Result<T, native_dialog::Error>>,
)
    requires
        answer_for(look, r),
    ensures
        look matches Poll::Ready(x) ==> r == Some(x),
        r is None <==> look is Empty,
        look is Disconnected ==> (r matches Some(Ok(v)) && call_ensures(T::default, (), v)),
{
}

/// A file dialog for immediate-mode GUIs: `T` is what the dialog yields
/// (a path, a list of paths, ...), `C` the callback that the dialog's worker
/// runs when the dialog closes.
#[verifier::reject_recursive_types(T)]
pub struct ImNativeFileDialog<T, C> {
    callback: Option<C>,
    receiver: Option<AnswerReceiver<Result<T, native_dialog::Error>>>,
    answers: Ghost<Seq<Poll<Result<T, native_dialog::Error>>>>,
}

impl<T, C> ImNativeFileDialog<T, C> {
    /// The dialog is open: a worker was started and has not been heard from.
    pub closed spec fn opened(self) -> bool {
        self.receiver is Some
    }

    /// The callback that the next opening hands to its worker, if any.
    pub closed spec fn pending_callback(self) -> Option<C> {
        self.callback
    }

    /// The dialog waits on the receiving end `receiver`.
    pub closed spec fn waits_on(
        self,
        receiver: AnswerReceiver<Result<T, native_dialog::Error>>,
    ) -> bool {
        self.receiver == Some(receiver)
    }

    /// What the looks into the dialog's current (or, once closed, last)
    /// channel took out.
    pub closed spec fn answered(self) -> Seq<Poll<Result<T, native_dialog::Error>>> {
        match self.receiver {
            Some(rx) => rx.taken(),
            None => self.answers@,
        }
    }

    /// The dialog as it is, but waiting on `receiver`.
    pub closed spec fn waiting_on(self, receiver: AnswerReceiver<Result<T, native_dialog::Error>>) -> Self {
        ImNativeFileDialog { receiver: Some(receiver), ..self }
    }

    /// The channel whose answer the open dialog waits for.
    pub closed spec fn answer_channel_id(self) -> int {
        self.receiver->Some_0.channel()
    }

    /// A closed dialog without a callback.
    pub fn new() -> (d: Self)
        ensures
            !d.opened(),
            d.pending_callback() is None,
    {
        ImNativeFileDialog { callback: None, receiver: None, answers: Ghost(Seq::empty()) }
    }

    /// Whether the dialog is open. Only [`ImNativeFileDialog::check`]
    /// notices that it closed.
    pub fn is_open(&self) -> (r: bool)
        ensures
            r == self.opened(),
    {
        self.receiver.is_some()
    }

    /// Sets the callback that the worker of the next opening runs as soon as
    /// the dialog closes; a callback set before is replaced.
    pub fn with_callback(&mut self, callback: C) -> (r: &mut Self)
        ensures
            r.pending_callback() == Some(callback),
            r.opened() == open_after(old(self).opened(), DialogCall::SetCallback),
            *final(self) == *final(r),
    {
        self.callback = Some(callback);
        self
    }

    /// Opens the dialog. An open dialog is refused with
    /// [`ImNativeDialogError::AlreadyOpen`] and left as it is. Otherwise a
    /// one-slot channel is made, its receiving end is kept (the dialog is now
    /// open), and the sending end is handed back together with the pending
    /// callback, which is taken out: the caller starts the worker with both.
    pub fn show(&mut self) -> (r: Result<
        (AnswerSender<Result<T, native_dialog::Error>>, Option<C>),
        ImNativeDialogError,
    >)
        ensures
            final(self).opened() == open_after(old(self).opened(), DialogCall::Show),
            old(self).opened() ==> r == Err::<
                (AnswerSender<Result<T, native_dialog::Error>>, Option<C>),
                ImNativeDialogError,
            >(ImNativeDialogError::AlreadyOpen) && *final(self) == *old(self),
            !old(self).opened() ==> {
                &&& r matches Ok((sender, cb)) && cb == old(self).pending_callback()
                    && sender.channel() == final(self).answer_channel_id()
                    && sender.capacity() == 1
                &&& final(self).opened()
                &&& final(self).pending_callback() is None
            },
    {
        if self.receiver.is_some() {
            return Err(ImNativeDialogError::AlreadyOpen);
        }
        let (sender, receiver) = answer_channel();
        let callback = self.callback.take();
        self.receiver = Some(receiver);
        Ok((sender, callback))
    }
}

impl<T: Default, C> ImNativeFileDialog<T, C> {
    /// Looks, without blocking, whether the dialog has closed. A closed
    /// dialog gives `None`. An open one gives `None` while the worker has not
    /// answered (it stays open), and its answer once it has (it is then
    /// closed); a worker that went away without answering counts as the
    /// answer `Ok(T::default())`.
    pub fn check(&mut self) -> (r: Option<Result<T, native_dialog::Error>>)
        ensures
            !old(self).opened() ==> r is None && *final(self) == *old(self),
            old(self).opened() ==> (r is None <==> final(self).opened()),
            old(self).opened() && r is None ==> *final(self) == *old(self),
            final(self).opened() == open_after(
                old(self).opened(),
                DialogCall::Check { answered: r is Some },
            ),
            final(self).pending_callback() == old(self).pending_callback(),
            old(self).opened() && r is Some ==> {
                &&& final(self).answered().len() == old(self).answered().len() + 1
                &&& final(self).answered().subrange(0, old(self).answered().len() as int)
                    == old(self).answered()
                &&& answer_for(final(self).answered().last(), r)
            },
    {
        match self.receiver.take() {
            Some(receiver) => {
                let mut receiver = receiver;
                let outcome = poll_channel(&mut receiver);
                proof {
                    if !(outcome is Empty) {
                        assert(receiver.taken().subrange(0, old(self).answered().len() as int)
                            =~= old(self).answered());
                    }
                }
                self.settle(receiver, outcome)
            },
            None => None,
        }
    }

    /// What [`ImNativeFileDialog::check`] does with one look into the
    /// channel whose receiving end is `receiver`: an answer is handed out and
    /// closes the dialog; an empty channel keeps it open on `receiver`; a
    /// channel whose sender went away closes it with `Ok(T::default())`.
    pub fn settle(
        &mut self,
        receiver: AnswerReceiver<Result<T, native_dialog::Error>>,
        outcome: Poll<Result<T, native_dialog::Error>>,
    ) -> (r: Option<Result<T, native_dialog::Error>>)
        ensures
            final(self).pending_callback() == old(self).pending_callback(),
            final(self).answered() == receiver.taken(),
            match outcome {
                Poll::Ready(answer) => r == Some(answer) && !final(self).opened(),
                Poll::Empty => r is None && final(self).opened() && final(self).waits_on(receiver)
                    && *final(self) == old(self).waiting_on(receiver),
                Poll::Disconnected => r matches Some(Ok(v)) && call_ensures(T::default, (), v)
                    && !final(self).opened(),
            },
    {
        match outcome {
            Poll::Ready(answer) => {
                self.receiver = None;
                self.answers = Ghost(receiver.taken());
                Some(answer)
            },
            Poll::Empty => {
                self.receiver = Some(receiver);
                None
            },
            Poll::Disconnected => {
                self.receiver = None;
                self.answers = Ghost(receiver.taken());
                Some(Ok(T::default()))
            },
        }
    }
}

impl<T, C> Default for ImNativeFileDialog<T, C> {
    fn default() -> (d: Self)
        ensures
            !d.opened(),
            d.pending_callback() is None,
    {
        ImNativeFileDialog::new()
    }
}

} // verus!
