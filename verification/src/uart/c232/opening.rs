//! Opening of a cable by direct USB access, as a machine that the opening thread runs.
//!
//! The machine names the one thing it waits for ([`UsbOpening::action`]); the thread does it
//! and hands the result back ([`UsbOpening::advance`]). Once the serial driver is detached,
//! every failure gives the cable back to it.

use vstd::prelude::*;
use vstd::string::*;

use crate::cli::{MAXIMUM_BAUD, MINIMUM_BAUD};
use crate::error::{error_view, Category, Error, ErrorView};
use crate::text::joined;
use crate::uart::transport::{Metadata, MetadataView};

use super::usb::{
    configuration, configure_ftdi, control_error, control_failed, discover_endpoints, discovers,
    AlternateSetting, ControlRequest, PortEndpoints, UsbDeviceInfo, UsbDeviceView,
};

verus! {

broadcast use vstd::string::group_string_axioms;

/// What the opening thread does next.
#[derive(Clone, Copy, Debug, PartialEq, Eq, Structural)]
pub enum Action {
    /// Open the device at a position of the enumeration.
    OpenDevice { position: usize },
    /// Report the alternate settings of the device.
    Describe,
    /// Detach the serial driver.
    Detach,
    /// Attach the serial driver.
    Attach,
    /// Claim the interface.
    Claim,
    /// Send a control request.
    Control(ControlRequest),
    /// Open the receive endpoint.
    OpenIn { endpoint: u8 },
    /// Open the transmit endpoint.
    OpenOut { endpoint: u8 },
    /// Nothing: the machine has come to its end.
    Finish,
}

/// What became of an action.
#[derive(Debug)]
pub enum Event {
    /// It was done.
    Done,
    /// It failed.
    Failed(String),
    /// The serial driver was not detached because none was attached.
    NoDriver(String),
    /// The alternate settings of the device, in descriptor order.
    Described(Vec<AlternateSetting>),
}

/// What became of an action, by views.
pub enum EventView {
    Done,
    Failed(Seq<char>),
    NoDriver(Seq<char>),
    Described(Seq<AlternateSetting>),
}

impl DeepView for Event {
    type V = EventView;

    open spec fn deep_view(&self) -> EventView {
        match self {
            Event::Done => EventView::Done,
            Event::Failed(reason) => EventView::Failed(reason@),
            Event::NoDriver(reason) => EventView::NoDriver(reason@),
            Event::Described(settings) => EventView::Described(settings@),
        }
    }
}

/// What the machine waits for.
#[derive(Debug)]
pub enum Step {
    Open,
    Describe,
    Detach,
    Attach,
    DetachAgain,
    Claim,
    Control(usize),
    RxEndpoint,
    TxEndpoint,
    /// The cable is given back to the serial driver, whatever comes of it.
    Restore(Error),
    Opened,
    Failed(Error),
}

/// What the machine waits for, by views.
pub enum StepView {
    Open,
    Describe,
    Detach,
    Attach,
    DetachAgain,
    Claim,
    Control(usize),
    RxEndpoint,
    TxEndpoint,
    Restore(ErrorView),
    Opened,
    Failed(ErrorView),
}

impl DeepView for Step {
    type V = StepView;

    open spec fn deep_view(&self) -> StepView {
        match self {
            Step::Open => StepView::Open,
            Step::Describe => StepView::Describe,
            Step::Detach => StepView::Detach,
            Step::Attach => StepView::Attach,
            Step::DetachAgain => StepView::DetachAgain,
            Step::Claim => StepView::Claim,
            Step::Control(index) => StepView::Control(*index),
            Step::RxEndpoint => StepView::RxEndpoint,
            Step::TxEndpoint => StepView::TxEndpoint,
            Step::Restore(error) => StepView::Restore(error.deep_view()),
            Step::Opened => StepView::Opened,
            Step::Failed(error) => StepView::Failed(error.deep_view()),
        }
    }
}

/// The state of the machine, by views.
#[verifier::ext_equal]
pub struct OpeningView {
    pub device: UsbDeviceView,
    pub baud: u32,
    pub endpoints: PortEndpoints,
    pub step: StepView,
}

/// A text that names the cable, and the reason behind it.
pub open spec fn about(what: Seq<char>, device: UsbDeviceView, reason: Seq<char>) -> ErrorView {
    error_view(
        Category::Access,
        what + device.serial + " at "@ + device.path + ": "@ + reason,
    )
}

/// The machine at another step.
pub open spec fn at(o: OpeningView, step: StepView) -> OpeningView {
    OpeningView { step, ..o }
}

/// The machine before the control request at `index`, or past the last one.
pub open spec fn configuring(o: OpeningView, index: int) -> OpeningView {
    let (requests, result) = configuration(o.baud);
    if index < requests.len() {
        at(o, StepView::Control(index as usize))
    } else {
        match result {
            Ok(_) => at(o, StepView::RxEndpoint),
            Err(error) => at(o, StepView::Restore(error)),
        }
    }
}

/// The machine after an action that was done.
pub open spec fn after_done(o: OpeningView) -> OpeningView {
    match o.step {
        StepView::Open => at(o, StepView::Describe),
        StepView::Detach => at(o, StepView::Claim),
        StepView::Attach => at(o, StepView::DetachAgain),
        StepView::DetachAgain => at(o, StepView::Claim),
        StepView::Claim => configuring(o, 0),
        StepView::Control(index) => configuring(o, index + 1),
        StepView::RxEndpoint => at(o, StepView::TxEndpoint),
        StepView::TxEndpoint => at(o, StepView::Opened),
        StepView::Restore(error) => at(o, StepView::Failed(error)),
        _ => o,
    }
}

/// The machine after an action that failed. A failure once the driver is detached restores
/// it.
pub open spec fn after_failure(o: OpeningView, reason: Seq<char>) -> OpeningView {
    match o.step {
        StepView::Open => at(
            o,
            StepView::Failed(about("cannot open C232HD USB serial "@, o.device, reason)),
        ),
        StepView::Detach => at(
            o,
            StepView::Failed(
                about("cannot detach the VCP driver for C232HD serial "@, o.device, reason),
            ),
        ),
        StepView::Attach => at(
            o,
            StepView::Failed(
                about("cannot restore the VCP driver for C232HD serial "@, o.device, reason),
            ),
        ),
        StepView::DetachAgain => at(
            o,
            StepView::Failed(
                about(
                    "cannot detach the restored VCP driver for C232HD serial "@,
                    o.device,
                    reason,
                ),
            ),
        ),
        StepView::Claim => at(
            o,
            StepView::Restore(
                error_view(Category::Access, "cannot claim C232HD USB interface: "@ + reason),
            ),
        ),
        StepView::Control(index) => at(
            o,
            StepView::Restore(
                control_error(configuration(o.baud).0[index as int].request, reason),
            ),
        ),
        StepView::RxEndpoint => at(
            o,
            StepView::Restore(
                error_view(Category::Protocol, "FTDI RX endpoint mismatch: "@ + reason),
            ),
        ),
        StepView::TxEndpoint => at(
            o,
            StepView::Restore(
                error_view(Category::Protocol, "FTDI TX endpoint mismatch: "@ + reason),
            ),
        ),
        StepView::Restore(error) => at(o, StepView::Failed(error)),
        _ => o,
    }
}

/// Whether `q` is the machine after the alternate settings were reported.
pub open spec fn after_description(
    o: OpeningView,
    settings: Seq<AlternateSetting>,
    q: OpeningView,
) -> bool {
    if o.step != StepView::Describe {
        q == o
    } else {
        exists|found: Result<PortEndpoints, ErrorView>| #[trigger]
            discovers(settings, found) && q == (match found {
                Ok(endpoints) => OpeningView { endpoints, step: StepView::Detach, ..o },
                Err(error) => at(o, StepView::Failed(error)),
            })
    }
}

/// Whether `q` is the machine after an event. An event that the step does not wait for
/// changes nothing.
pub open spec fn opening_next(o: OpeningView, event: EventView, q: OpeningView) -> bool {
    match event {
        EventView::Done => q == after_done(o),
        EventView::Failed(reason) => q == after_failure(o, reason),
        EventView::NoDriver(reason) => q == (if o.step == StepView::Detach {
            at(o, StepView::Attach)
        } else {
            after_failure(o, reason)
        }),
        EventView::Described(settings) => after_description(o, settings, q),
    }
}

/// The action of the machine.
pub open spec fn opening_action(o: OpeningView) -> Action {
    match o.step {
        StepView::Open => Action::OpenDevice { position: o.device.native },
        StepView::Describe => Action::Describe,
        StepView::Detach | StepView::DetachAgain => Action::Detach,
        StepView::Attach | StepView::Restore(_) => Action::Attach,
        StepView::Claim => Action::Claim,
        StepView::Control(index) => Action::Control(configuration(o.baud).0[index as int]),
        StepView::RxEndpoint => Action::OpenIn { endpoint: o.endpoints.rx },
        StepView::TxEndpoint => Action::OpenOut { endpoint: o.endpoints.tx },
        StepView::Opened | StepView::Failed(_) => Action::Finish,
    }
}

/// Whether the serial driver is detached at a step.
pub open spec fn driver_detached(step: StepView) -> bool {
    match step {
        StepView::Claim | StepView::Control(_) | StepView::RxEndpoint | StepView::TxEndpoint
        | StepView::Restore(_) | StepView::Opened => true,
        _ => false,
    }
}

/// A cable whose driver is detached is either opened or given back: from every such step, the
/// machine goes to another one, or, by way of an attempt to attach the driver, to its failure.
pub proof fn detached_cables_are_given_back(o: OpeningView, event: EventView, q: OpeningView)
    requires
        driver_detached(o.step),
        opening_next(o, event, q),
    ensures
        driver_detached(q.step) || (opening_action(o) == Action::Attach && q.step is Failed),
{
}

/// The driver stays as it is until the device was found to have a serial port, and the port
/// that is opened later is the one that was found.
pub proof fn descriptors_come_before_the_driver(o: OpeningView, event: EventView, q: OpeningView)
    requires
        opening_next(o, event, q),
        o.step is Open || o.step is Describe,
    ensures
        q.step is Open || q.step is Describe || q.step is Detach || q.step is Failed,
        q.step is Detach ==> event is Described && exists|endpoints: PortEndpoints| #[trigger]
            discovers(event->Described_0, Ok(endpoints)) && q.endpoints == endpoints,
{
}

/// The interface is claimed only behind a driver that was just detached.
pub proof fn claims_follow_the_detach(o: OpeningView, event: EventView, q: OpeningView)
    requires
        opening_next(o, event, q),
        !driver_detached(o.step),
        driver_detached(q.step),
    ensures
        opening_action(o) == Action::Detach,
        event is Done,
        opening_action(q) == Action::Claim,
{
}

/// The system's error number for an interface that has no driver to detach.
pub const NO_DRIVER_ERROR: u32 = 61;

/// What became of a detach that was refused: there was no driver to detach if the device layer
/// says that nothing was found, or if a Linux system says so by its error number.
pub fn detach_refused(
    not_found: bool,
    linux: bool,
    system_error: Option<u32>,
    reason: String,
) -> (event: Event)
    ensures
        event.deep_view() == (if not_found || (linux && system_error == Some(NO_DRIVER_ERROR)) {
            EventView::NoDriver(reason@)
        } else {
            EventView::Failed(reason@)
        }),
{
    let numbered = match system_error {
        Some(number) => number == NO_DRIVER_ERROR,
        None => false,
    };
    if not_found || (linux && numbered) {
        Event::NoDriver(reason)
    } else {
        Event::Failed(reason)
    }
}

/// How often a closed cable is offered to its serial driver.
pub const ATTACH_ATTEMPTS: usize = 10;

/// How long a closed cable rests between two offers, in milliseconds.
pub const ATTACH_PAUSE_MILLIS: u64 = 10;

/// Whether a closed cable is offered to its serial driver once more, after `attempts` offers of
/// which the last one was taken or refused.
pub fn offers_again(attempts: usize, attached: bool) -> (again: bool)
    ensures
        again == (attempts < ATTACH_ATTEMPTS && !attached),
{
    attempts < ATTACH_ATTEMPTS && !attached
}

/// A machine that opens one cable.
#[derive(Debug)]
pub struct UsbOpening {
    device: UsbDeviceInfo,
    baud: u32,
    endpoints: PortEndpoints,
    requests: Vec<ControlRequest>,
    configured: Result<u32, Error>,
    step: Step,
}

impl DeepView for UsbOpening {
    type V = OpeningView;

    closed spec fn deep_view(&self) -> OpeningView {
        OpeningView {
            device: self.device.deep_view(),
            baud: self.baud,
            endpoints: self.endpoints,
            step: self.step.deep_view(),
        }
    }
}

/// A cable that was opened.
#[derive(Debug)]
pub struct OpenedCable {
    pub device: UsbDeviceInfo,
    pub endpoints: PortEndpoints,
    pub requested_baud: u32,
    pub actual_baud: u32,
}

/// What is known of an opened cable.
pub open spec fn cable_metadata(device: UsbDeviceView, requested: u32, actual: u32) -> MetadataView {
    MetadataView {
        backend: "usb"@,
        serial: Some(device.serial),
        path: Some(device.path),
        requested_baud: requested,
        actual_baud: actual,
        minimum_baud: MINIMUM_BAUD,
        maximum_baud: MAXIMUM_BAUD,
    }
}

impl OpenedCable {
    /// What is known of this cable.
    pub fn metadata(&self) -> (metadata: Metadata)
        ensures
            metadata.deep_view() == cable_metadata(
                self.device.deep_view(),
                self.requested_baud,
                self.actual_baud,
            ),
    {
        Metadata {
            backend: "usb",
            serial: Some(self.device.serial.clone()),
            path: Some(self.device.path.clone()),
            requested_baud: self.requested_baud,
            actual_baud: self.actual_baud,
            minimum_baud: MINIMUM_BAUD,
            maximum_baud: MAXIMUM_BAUD,
        }
    }
}

fn message_about(what: &str, device: &UsbDeviceInfo, reason: &str) -> (error: Error)
    ensures
        error.deep_view() == about(what@, device.deep_view(), reason@),
{
    let mut message = joined(what, &device.serial);
    message.append(" at ");
    message.append(&device.path);
    message.append(": ");
    message.append(reason);
    Error::Access(message)
}

/// The same error again.
fn copy_error(error: &Error) -> (copy: Error)
    ensures
        copy.deep_view() == error.deep_view(),
{
    match error {
        Error::Selection(message) => Error::Selection(message.clone()),
        Error::Access(message) => Error::Access(message.clone()),
        Error::Protocol(message) => Error::Protocol(message.clone()),
        Error::Timeout(message) => Error::Timeout(message.clone()),
        Error::Validation(message) => Error::Validation(message.clone()),
    }
}

impl UsbOpening {
    /// The requests are those of the configuration, and the machine is at one of them or past
    /// all of them only where the line rate is representable.
    pub closed spec fn wf(&self) -> bool {
        &&& (self.requests@, crate::error::result_view(self.configured)) == configuration(
            self.baud,
        )
        &&& (self.step matches Step::Control(index) ==> index < self.requests@.len())
        &&& (self.step is RxEndpoint || self.step is TxEndpoint || self.step is Opened
            ==> self.configured is Ok)
    }

    /// A machine for a cable at the given line rate.
    pub fn new(device: UsbDeviceInfo, baud: u32) -> (machine: UsbOpening)
        ensures
            machine.wf(),
            machine.deep_view().device == device.deep_view(),
            machine.deep_view().baud == baud,
            machine.deep_view().step == StepView::Open,
    {
        let (requests, configured) = configure_ftdi(baud);
        UsbOpening {
            device,
            baud,
            endpoints: PortEndpoints { rx: 0, tx: 0, max_packet: 0 },
            requests,
            configured,
            step: Step::Open,
        }
    }

    /// What is to be done next.
    pub fn action(&self) -> (action: Action)
        requires
            self.wf(),
        ensures
            action == opening_action(self.deep_view()),
    {
        match &self.step {
            Step::Open => Action::OpenDevice { position: self.device.native },
            Step::Describe => Action::Describe,
            Step::Detach | Step::DetachAgain => Action::Detach,
            Step::Attach | Step::Restore(_) => Action::Attach,
            Step::Claim => Action::Claim,
            Step::Control(index) => Action::Control(self.requests[*index]),
            Step::RxEndpoint => Action::OpenIn { endpoint: self.endpoints.rx },
            Step::TxEndpoint => Action::OpenOut { endpoint: self.endpoints.tx },
            Step::Opened | Step::Failed(_) => Action::Finish,
        }
    }

    /// Goes to the control request at `index`, or past the last one.
    fn configure_at(&mut self, index: usize)
        requires
            old(self).wf(),
        ensures
            final(self).wf(),
            final(self).deep_view() == configuring(old(self).deep_view(), index as int),
    {
        if index < self.requests.len() {
            self.step = Step::Control(index);
            return ;
        }
        match &self.configured {
            Ok(_) => {
                self.step = Step::RxEndpoint;
            },
            Err(error) => {
                self.step = Step::Restore(copy_error(error));
            },
        }
    }

    /// Takes an action that was done.
    fn done(&mut self)
        requires
            old(self).wf(),
        ensures
            final(self).wf(),
            final(self).deep_view() == after_done(old(self).deep_view()),
    {
        match &self.step {
            Step::Open => {
                self.step = Step::Describe;
            },
            Step::Detach => {
                self.step = Step::Claim;
            },
            Step::Attach => {
                self.step = Step::DetachAgain;
            },
            Step::DetachAgain => {
                self.step = Step::Claim;
            },
            Step::Claim => {
                self.configure_at(0);
            },
            Step::Control(index) => {
                let next: usize = *index + 1;
                self.configure_at(next);
            },
            Step::RxEndpoint => {
                self.step = Step::TxEndpoint;
            },
            Step::TxEndpoint => {
                self.step = Step::Opened;
            },
            Step::Restore(error) => {
                self.step = Step::Failed(copy_error(error));
            },
            _ => {},
        }
    }

    /// Takes an action that failed.
    fn failed(&mut self, reason: &str)
        requires
            old(self).wf(),
        ensures
            final(self).wf(),
            final(self).deep_view() == after_failure(old(self).deep_view(), reason@),
    {
        match &self.step {
            Step::Open => {
                self.step = Step::Failed(
                    message_about("cannot open C232HD USB serial ", &self.device, reason),
                );
            },
            Step::Detach => {
                self.step = Step::Failed(
                    message_about(
                        "cannot detach the VCP driver for C232HD serial ",
                        &self.device,
                        reason,
                    ),
                );
            },
            Step::Attach => {
                self.step = Step::Failed(
                    message_about(
                        "cannot restore the VCP driver for C232HD serial ",
                        &self.device,
                        reason,
                    ),
                );
            },
            Step::DetachAgain => {
                self.step = Step::Failed(
                    message_about(
                        "cannot detach the restored VCP driver for C232HD serial ",
                        &self.device,
                        reason,
                    ),
                );
            },
            Step::Claim => {
                self.step = Step::Restore(
                    Error::Access(joined("cannot claim C232HD USB interface: ", reason)),
                );
            },
            Step::Control(index) => {
                let request = self.requests[*index].request;
                self.step = Step::Restore(control_failed(request, reason));
            },
            Step::RxEndpoint => {
                self.step = Step::Restore(
                    Error::Protocol(joined("FTDI RX endpoint mismatch: ", reason)),
                );
            },
            Step::TxEndpoint => {
                self.step = Step::Restore(
                    Error::Protocol(joined("FTDI TX endpoint mismatch: ", reason)),
                );
            },
            Step::Restore(error) => {
                self.step = Step::Failed(copy_error(error));
            },
            _ => {},
        }
    }

    /// Takes what became of the action.
    pub fn advance(&mut self, event: Event)
        requires
            old(self).wf(),
        ensures
            final(self).wf(),
            opening_next(old(self).deep_view(), event.deep_view(), final(self).deep_view()),
    {
        match event {
            Event::Done => self.done(),
            Event::Failed(reason) => self.failed(&reason),
            Event::NoDriver(reason) => match &self.step {
                Step::Detach => {
                    self.step = Step::Attach;
                },
                _ => self.failed(&reason),
            },
            Event::Described(settings) => match &self.step {
                Step::Describe => {
                    let found = discover_endpoints(&settings);
                    assert(discovers(settings@, crate::error::result_view(found)));
                    match found {
                        Ok(endpoints) => {
                            self.endpoints = endpoints;
                            self.step = Step::Detach;
                        },
                        Err(error) => {
                            self.step = Step::Failed(error);
                        },
                    }
                },
                _ => {},
            },
        }
    }

    /// What came of the opening: nothing while an action is outstanding, and otherwise the
    /// cable or the error.
    pub fn finish(self) -> (outcome: Option<Result<OpenedCable, Error>>)
        requires
            self.wf(),
        ensures
            match (outcome, self.deep_view().step) {
                (Some(Ok(opened)), StepView::Opened) => {
                    &&& opened.device.deep_view() == self.deep_view().device
                    &&& opened.endpoints == self.deep_view().endpoints
                    &&& opened.requested_baud == self.deep_view().baud
                    &&& configuration(self.deep_view().baud).1 == Ok::<u32, ErrorView>(
                        opened.actual_baud,
                    )
                },
                (Some(Err(error)), StepView::Failed(expected)) => error.deep_view() == expected,
                (None, step) => step !is Opened && step !is Failed,
                _ => false,
            },
    {
        match self.step {
            Step::Opened => match self.configured {
                Ok(actual_baud) => Some(
                    Ok(
                        OpenedCable {
                            device: self.device,
                            endpoints: self.endpoints,
                            requested_baud: self.baud,
                            actual_baud,
                        },
                    ),
                ),
                Err(error) => Some(Err(error)),
            },
            Step::Failed(error) => Some(Err(error)),
            _ => None,
        }
    }
}

}
