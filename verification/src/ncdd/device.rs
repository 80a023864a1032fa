//! A device of the daemon and the task that carries its data.
use crate::runtime::connection_error::ConnectionCreateError;
use crate::runtime::net::IpAddress;
use vstd::prelude::*;

verus! {

/// What the main loop tells the task of a device.
#[derive(Debug, PartialEq, Eq)]
pub enum WriteCommand {
    Data(Vec<u8>),
    PauseRead,
    ResumeRead,
    Close,
}

/// The mathematical content of a [`WriteCommand`].
pub enum WriteCommandView {
    Data(Seq<u8>),
    PauseRead,
    ResumeRead,
    Close,
}

impl View for WriteCommand {
    type V = WriteCommandView;

    open spec fn view(&self) -> WriteCommandView {
        match self {
            WriteCommand::Data(data) => WriteCommandView::Data(data@),
            WriteCommand::PauseRead => WriteCommandView::PauseRead,
            WriteCommand::ResumeRead => WriteCommandView::ResumeRead,
            WriteCommand::Close => WriteCommandView::Close,
        }
    }
}

/// Why a device could not do something.
#[derive(Debug)]
pub enum DeviceOperationError {
    /// The device was not opened.
    NotOpen,
    /// The task of the device has ended.
    ConnectionLost,
    /// The device could not be connected.
    ConnectionCreateError(ConnectionCreateError),
}

/// A remote device as the daemon knows it.
#[derive(Debug)]
pub struct Device {
    pub minor: u8,
    pub name: String,
    pub remote_ip: IpAddress,
    pub remote_port: u16,
    /// A task was started for the device and not told to close.
    pub open: bool,
}

impl Device {
    /// A device that is not open.
    pub fn new(minor: u8, name: String, remote_ip: IpAddress, remote_port: u16) -> (r: Device)
        ensures
            r.minor == minor,
            r.name == name,
            r.remote_ip == remote_ip,
            r.remote_port == remote_port,
            !r.open,
    {
        Device { minor, name, remote_ip, remote_port, open: false }
    }

    /// A task was started for the device.
    pub fn opened(&mut self)
        ensures
            final(self).minor == old(self).minor,
            final(self).name == old(self).name,
            final(self).remote_ip == old(self).remote_ip,
            final(self).remote_port == old(self).remote_port,
            final(self).open,
    {
        self.open = true;
    }

    /// What to tell the task to send data.
    pub fn write(&self, data: Vec<u8>) -> (r: Result<WriteCommand, DeviceOperationError>)
        ensures
            match r {
                Ok(c) => self.open && c@ == WriteCommandView::Data(data@),
                Err(e) => !self.open && e is NotOpen,
            },
    {
        self.send_command(WriteCommand::Data(data))
    }

    /// What to tell the task to stop reading while the kernel has no room.
    pub fn pause_reading(&self) -> (r: Result<WriteCommand, DeviceOperationError>)
        ensures
            match r {
                Ok(c) => self.open && c@ == WriteCommandView::PauseRead,
                Err(e) => !self.open && e is NotOpen,
            },
    {
        self.send_command(WriteCommand::PauseRead)
    }

    /// What to tell the task to go on reading.
    pub fn resume_reading(&self) -> (r: Result<WriteCommand, DeviceOperationError>)
        ensures
            match r {
                Ok(c) => self.open && c@ == WriteCommandView::ResumeRead,
                Err(e) => !self.open && e is NotOpen,
            },
    {
        self.send_command(WriteCommand::ResumeRead)
    }

    fn send_command(&self, command: WriteCommand) -> (r: Result<WriteCommand, DeviceOperationError>)
        ensures
            match r {
                Ok(c) => self.open && c == command,
                Err(e) => !self.open && e is NotOpen,
            },
    {
        if self.open {
            Ok(command)
        } else {
            Err(DeviceOperationError::NotOpen)
        }
    }

    /// Closes the device: what to tell the task, if there is one.
    pub fn close(&mut self) -> (r: Option<WriteCommand>)
        ensures
            final(self).minor == old(self).minor,
            final(self).name == old(self).name,
            final(self).remote_ip == old(self).remote_ip,
            final(self).remote_port == old(self).remote_port,
            !final(self).open,
            match r {
                Some(c) => old(self).open && c@ == WriteCommandView::Close,
                None => !old(self).open,
            },
    {
        let was_open = self.open;
        self.open = false;
        if was_open {
            Some(WriteCommand::Close)
        } else {
            None
        }
    }
}

/// Something that happened to the task of a device.
#[derive(Debug)]
pub enum TaskEvent {
    /// Data came from the remote device.
    Read(Vec<u8>),
    /// Nothing can be read any more.
    ReadFailed,
    /// The main loop has a command.
    Command(WriteCommand),
    /// The main loop has gone.
    MainLoopGone,
    /// Data could not be sent to the remote device.
    WriteFailed,
    /// The main loop takes no data any more.
    ForwardFailed,
    /// The connection was closed, with these messages unread.
    Closed(Vec<Vec<u8>>),
    /// The connection could not be closed as it should.
    CloseFailed,
}

/// Something for the task of a device to do.
#[derive(Debug)]
pub enum TaskAction {
    /// Go on.
    Nothing,
    /// Hand data to the main loop.
    Forward(Vec<u8>),
    /// Send data to the remote device.
    Write(Vec<u8>),
    /// Close the connection.
    Close,
    /// Hand each of these messages to the main loop, in order and whether it
    /// takes them or not, and end.
    ForwardAndEnd(Vec<Vec<u8>>),
    /// End.
    End,
}

/// The task of a device: whether it rests from reading.
#[derive(Debug, Clone, Copy, PartialEq, Eq, Structural)]
pub struct DeviceTask {
    pub read_paused: bool,
}

/// What an event leads to.
pub open spec fn task_stepped(t: DeviceTask, event: TaskEvent) -> (DeviceTask, TaskAction) {
    match event {
        TaskEvent::Read(data) => (t, TaskAction::Forward(data)),
        TaskEvent::ReadFailed => (t, TaskAction::End),
        TaskEvent::Command(WriteCommand::Data(data)) => (t, TaskAction::Write(data)),
        TaskEvent::Command(WriteCommand::PauseRead) => (
            DeviceTask { read_paused: true },
            TaskAction::Nothing,
        ),
        TaskEvent::Command(WriteCommand::ResumeRead) => (
            DeviceTask { read_paused: false },
            TaskAction::Nothing,
        ),
        TaskEvent::Command(WriteCommand::Close) => (t, TaskAction::Close),
        TaskEvent::Closed(unread) => (t, TaskAction::ForwardAndEnd(unread)),
        TaskEvent::CloseFailed => (t, TaskAction::End),
        TaskEvent::MainLoopGone => (t, TaskAction::End),
        TaskEvent::WriteFailed => (t, TaskAction::End),
        TaskEvent::ForwardFailed => (t, TaskAction::End),
    }
}

impl DeviceTask {
    /// A task that reads.
    pub fn new() -> (r: DeviceTask)
        ensures
            !r.read_paused,
    {
        DeviceTask { read_paused: false }
    }

    /// Serves an event.
    pub fn step(&mut self, event: TaskEvent) -> (r: TaskAction)
        ensures
            (*final(self), r) == task_stepped(*old(self), event),
    {
        match event {
            TaskEvent::Read(data) => TaskAction::Forward(data),
            TaskEvent::Command(command) => match command {
                WriteCommand::Data(data) => TaskAction::Write(data),
                WriteCommand::PauseRead => {
                    self.read_paused = true;
                    TaskAction::Nothing
                },
                WriteCommand::ResumeRead => {
                    self.read_paused = false;
                    TaskAction::Nothing
                },
                WriteCommand::Close => TaskAction::Close,
            },
            TaskEvent::Closed(unread) => TaskAction::ForwardAndEnd(unread),
            TaskEvent::ReadFailed
            | TaskEvent::MainLoopGone
            | TaskEvent::WriteFailed
            | TaskEvent::ForwardFailed
            | TaskEvent::CloseFailed => TaskAction::End,
        }
    }
}

/// Everything that comes from the remote device goes to the main loop, what is
/// read as well as what is unread when the connection is closed, and nothing
/// else does. Whether the task rests from reading makes no difference.
pub proof fn law_data_reaches_main_loop(t: DeviceTask, event: TaskEvent)
    ensures
        forall|data: Vec<u8>|
            task_stepped(t, event).1 == TaskAction::Forward(data) <==> event == TaskEvent::Read(
                data,
            ),
        forall|unread: Vec<Vec<u8>>|
            task_stepped(t, event).1 == TaskAction::ForwardAndEnd(unread) <==> event
                == TaskEvent::Closed(unread),
{
}

/// The task does what it is told and nothing else: data is sent, reading rests
/// and goes on, a close closes. Only the two commands about reading change
/// whether it rests. Whatever fails ends the task.
pub proof fn law_commands_are_obeyed(t: DeviceTask, data: Vec<u8>, event: TaskEvent)
    ensures
        task_stepped(t, TaskEvent::Command(WriteCommand::Data(data))).1 == TaskAction::Write(data),
        task_stepped(t, TaskEvent::Command(WriteCommand::Close)).1 == TaskAction::Close,
        task_stepped(t, TaskEvent::Command(WriteCommand::PauseRead)) == (
            DeviceTask { read_paused: true },
            TaskAction::Nothing,
        ),
        task_stepped(t, TaskEvent::Command(WriteCommand::ResumeRead)) == (
            DeviceTask { read_paused: false },
            TaskAction::Nothing,
        ),
        event != TaskEvent::Command(WriteCommand::PauseRead) && event != TaskEvent::Command(
            WriteCommand::ResumeRead,
        ) ==> task_stepped(t, event).0 == t,
        event is ReadFailed || event is WriteFailed || event is ForwardFailed || event
            is MainLoopGone || event is CloseFailed <==> task_stepped(t, event).1
            == TaskAction::End,
{
}

} // verus!
