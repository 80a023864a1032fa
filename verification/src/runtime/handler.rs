//! The user's end of a connection: requests go to the task that runs the
//! connection, until that task has ended.
use crate::runtime::connection::{Request, RequestView};
use crate::runtime::connection_error::{
    result_view, ConnectionClosed, ConnectionClosedView, ConnectionError, ConnectionErrorView,
};
use crate::proto::packet::{Packet, PacketView};
use crate::wire::push_bytes;
use vstd::prelude::*;

verus! {

/// What is known of the task that runs a connection.
#[derive(Debug)]
pub enum TaskState {
    /// It was not started yet.
    Uninitialized,
    /// It was running when last looked at.
    Running,
    /// It ended with this result.
    Finished(Result<(), ConnectionError>),
}

/// The mathematical content of a [`TaskState`].
pub enum TaskStateView {
    Uninitialized,
    Running,
    Finished(Result<(), ConnectionErrorView>),
}

impl View for TaskState {
    type V = TaskStateView;

    open spec fn view(&self) -> TaskStateView {
        match self {
            TaskState::Uninitialized => TaskStateView::Uninitialized,
            TaskState::Running => TaskStateView::Running,
            TaskState::Finished(r) => TaskStateView::Finished(result_view(*r)),
        }
    }
}

/// Why a connection is closed whose task ended with this result.
pub open spec fn closed_by(r: Result<(), ConnectionErrorView>) -> ConnectionClosedView {
    match r {
        Ok(()) => ConnectionClosedView::Normal,
        Err(e) => ConnectionClosedView::Error(e),
    }
}

/// The result of a task that has ended by now, if it has.
pub open spec fn outcome_view(r: Option<Result<(), ConnectionError>>) -> Option<
    Result<(), ConnectionErrorView>,
> {
    match r {
        Some(r) => Some(result_view(r)),
        None => None,
    }
}

/// What is known of the task after another look at it.
pub open spec fn looked_at(
    task: TaskStateView,
    ended: Option<Result<(), ConnectionErrorView>>,
) -> TaskStateView {
    match task {
        TaskStateView::Running => match ended {
            Some(r) => TaskStateView::Finished(r),
            None => task,
        },
        _ => task,
    }
}

/// Why the connection is closed, if its task has ended.
pub open spec fn closed_state(task: TaskStateView) -> Option<ConnectionClosedView> {
    match task {
        TaskStateView::Finished(r) => Some(closed_by(r)),
        _ => None,
    }
}

/// The user's end of a connection.
#[derive(Debug)]
pub struct ConnHandler {
    task: TaskState,
}

impl View for ConnHandler {
    type V = TaskStateView;

    closed spec fn view(&self) -> TaskStateView {
        self.task@
    }
}

fn duplicate_result(r: &Result<(), ConnectionError>) -> (c: Result<(), ConnectionError>)
    ensures
        result_view(c) == result_view(*r),
{
    match r {
        Ok(()) => Ok(()),
        Err(e) => Err(e.duplicate()),
    }
}

fn closed_because(r: &Result<(), ConnectionError>) -> (c: ConnectionClosed)
    ensures
        c@ == closed_by(result_view(*r)),
{
    match r {
        Ok(()) => ConnectionClosed::Normal,
        Err(e) => ConnectionClosed::Error(e.duplicate()),
    }
}

impl ConnHandler {
    /// The user's end of a connection whose task is not started yet.
    pub fn new() -> (r: ConnHandler)
        ensures
            r@ == TaskStateView::Uninitialized,
    {
        ConnHandler { task: TaskState::Uninitialized }
    }

    /// The task was started.
    pub fn started(&mut self)
        ensures
            final(self)@ == TaskStateView::Running,
    {
        self.task = TaskState::Running;
    }

    /// Whether dropping this end leaves a task behind that nobody can stop.
    pub fn leaves_task_behind(&self) -> (r: bool)
        ensures
            r == !(self@ is Finished),
    {
        match self.task {
            TaskState::Finished(_) => false,
            _ => true,
        }
    }

    /// Looks at the task. `ended` is its result if it has ended by now.
    pub fn check_task_state(&mut self, ended: Option<Result<(), ConnectionError>>) -> (r: Option<
        ConnectionClosed,
    >)
        requires
            !(old(self)@ is Uninitialized),
        ensures
            final(self)@ == looked_at(old(self)@, outcome_view(ended)),
            match r {
                Some(c) => closed_state(final(self)@) == Some(c@),
                None => closed_state(final(self)@) is None,
            },
    {
        let running = match self.task {
            TaskState::Running => true,
            _ => false,
        };
        if running {
            if let Some(result) = ended {
                self.task = TaskState::Finished(result);
            }
        }
        match &self.task {
            TaskState::Finished(result) => Some(closed_because(result)),
            _ => None,
        }
    }

    /// The request that sends bytes as one packet.
    pub fn write(&mut self, bytes: &[u8], ended: Option<Result<(), ConnectionError>>) -> (r: Result<
        Request,
        ConnectionClosed,
    >)
        requires
            !(old(self)@ is Uninitialized),
        ensures
            final(self)@ == looked_at(old(self)@, outcome_view(ended)),
            match r {
                Ok(request) => closed_state(final(self)@) is None && request@ == RequestView::Send(
                    PacketView::Data(bytes@),
                ),
                Err(c) => closed_state(final(self)@) == Some(c@),
            },
    {
        match self.check_task_state(ended) {
            Some(c) => Err(c),
            None => {
                let mut data: Vec<u8> = Vec::new();
                push_bytes(&mut data, bytes);
                assert(data@ =~= bytes@);
                Ok(Request::Send(Packet::Data(data)))
            },
        }
    }

    /// What a read gives: the bytes of the next packet that was delivered, or,
    /// after the last one, why the connection is closed. The task hands over
    /// data packets only, and has ended when it hands over nothing.
    pub fn read(
        &mut self,
        delivered: Option<Packet>,
        ended: Option<Result<(), ConnectionError>>,
    ) -> (r: Result<Vec<u8>, ConnectionClosed>)
        requires
            !(old(self)@ is Uninitialized),
            delivered matches Some(p) ==> p@ is Data,
            delivered is None ==> closed_state(looked_at(old(self)@, outcome_view(ended))) is Some,
        ensures
            match delivered {
                Some(p) => final(self)@ == old(self)@ && (r matches Ok(data) && p@
                    == PacketView::Data(data@)),
                None => final(self)@ == looked_at(old(self)@, outcome_view(ended)) && (r matches Err(
                    c,
                ) && closed_state(final(self)@) == Some(c@)),
            },
    {
        match delivered {
            Some(packet) => match packet {
                Packet::Data(data) => Ok(data),
                // No other packet is handed over.
                _ => Ok(Vec::new()),
            },
            None => match self.check_task_state(ended) {
                Some(c) => Err(c),
                // The task has ended when it hands over nothing.
                None => Err(ConnectionClosed::Normal),
            },
        }
    }

    /// The request that asks for the status.
    pub fn get_status(&mut self, ended: Option<Result<(), ConnectionError>>) -> (r: Result<
        Request,
        ConnectionClosed,
    >)
        requires
            !(old(self)@ is Uninitialized),
        ensures
            final(self)@ == looked_at(old(self)@, outcome_view(ended)),
            match r {
                Ok(request) => closed_state(final(self)@) is None && request@
                    == RequestView::GetStatus,
                Err(c) => closed_state(final(self)@) == Some(c@),
            },
    {
        match self.check_task_state(ended) {
            Some(c) => Err(c),
            None => Ok(Request::GetStatus),
        }
    }

    /// The request that closes the connection.
    pub fn close(&mut self, ended: Option<Result<(), ConnectionError>>) -> (r: Result<
        Request,
        ConnectionClosed,
    >)
        requires
            !(old(self)@ is Uninitialized),
        ensures
            final(self)@ == looked_at(old(self)@, outcome_view(ended)),
            match r {
                Ok(request) => closed_state(final(self)@) is None && request@ == RequestView::Close,
                Err(c) => closed_state(final(self)@) == Some(c@),
            },
    {
        match self.check_task_state(ended) {
            Some(c) => Err(c),
            None => Ok(Request::Close),
        }
    }

    /// The task ended after a close was asked for: its result.
    pub fn close_finished(&mut self, result: Result<(), ConnectionError>) -> (r: Result<
        (),
        ConnectionError,
    >)
        ensures
            result_view(r) == result_view(result),
            final(self)@ == TaskStateView::Finished(result_view(result)),
    {
        let told = duplicate_result(&result);
        self.task = TaskState::Finished(result);
        told
    }
}

/// Once a task has ended, its result stays and every request is refused with
/// it.
pub proof fn law_end_is_final(
    task: TaskStateView,
    ended: Option<Result<(), ConnectionErrorView>>,
    again: Option<Result<(), ConnectionErrorView>>,
)
    requires
        closed_state(looked_at(task, ended)) is Some,
    ensures
        looked_at(looked_at(task, ended), again) == looked_at(task, ended),
{
}

/// A connection is open until its task ends. Then it is closed, normally where
/// the task ended well and with the failure where it did not.
pub proof fn law_what_the_end_says(e: ConnectionErrorView)
    ensures
        ({
            let running = TaskStateView::Running;
            let ok = looked_at(running, Some(Ok(())));
            let failed = looked_at(running, Some(Err(e)));
            &&& looked_at(running, None) == running
            &&& closed_state(running) is None
            &&& ok == TaskStateView::Finished(Ok(()))
            &&& closed_state(ok) == Some(ConnectionClosedView::Normal)
            &&& failed == TaskStateView::Finished(Err(e))
            &&& closed_state(failed) == Some(ConnectionClosedView::Error(e))
            &&& closed_state(TaskStateView::Uninitialized) is None
        }),
{
}

} // verus!
