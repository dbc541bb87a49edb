//! The way of a device from selection to an open UART: what every run that gets there has done.

use vstd::prelude::*;

use crate::baud::{glasgow_baud, lemma_glasgow_bounds};
use crate::error::{Category, ErrorView};

use super::device::{listed, GlasgowDeviceView};
use super::firmware::upload;
use super::management::{
    lemma_little_endian, little_endian, little_endian_value, load_payload, load_request_result,
    pulls_payload, status_payload, voltage_payload, write_payload,
};
use super::provision::{
    after_return, back_at, opened_metadata, provision_next, provision_start, same_device, step_action, Action,
    EventView, ProvisionView, Role, StepView,
};
use super::resource::ValidatedResource;
use super::sequence::{past_configuration, provision_run, reply, stepped, Input};

verus! {

/// The action of a state.
pub open spec fn asked(resource: ValidatedResource, state: ProvisionView) -> Action {
    step_action(resource, state.device.native.position, state.step)
}

/// Whether an action changes something outside, and is answered by its success or failure.
pub open spec fn changes_device(action: Action) -> bool {
    match action {
        Action::OpenDevice { .. } | Action::Claim { .. } | Action::SelectAlternate { .. }
        | Action::OpenIn { .. } | Action::OpenOut { .. } | Action::WriteRam { .. }
        | Action::WriteBitstream => true,
        _ => false,
    }
}

/// The actions on the device that a run asked for and that were done, in turn.
pub open spec fn performed(
    resource: ValidatedResource,
    states: Seq<ProvisionView>,
    inputs: Seq<Input>,
) -> Seq<Action>
    decreases inputs.len(),
{
    if inputs.len() == 0 {
        Seq::empty()
    } else {
        let before = performed(resource, states.drop_last(), inputs.drop_last());
        let action = asked(resource, states[inputs.len() - 1]);
        if inputs.last().event is Done && changes_device(action) {
            before.push(action)
        } else {
            before
        }
    }
}

/// The commands that a run sent and that were answered under their serial number, each with the
/// answer, in turn.
pub open spec fn conversed(
    resource: ValidatedResource,
    states: Seq<ProvisionView>,
    inputs: Seq<Input>,
) -> Seq<(Seq<u8>, Seq<u8>)>
    decreases inputs.len(),
{
    if inputs.len() == 0 {
        Seq::empty()
    } else {
        let before = conversed(resource, states.drop_last(), inputs.drop_last());
        let state = states[inputs.len() - 1];
        match reply(state, inputs.last().event) {
            Some(response) => if asked(resource, state) == Action::Exchange {
                before.push((state.payload, response))
            } else {
                before
            },
            None => before,
        }
    }
}

/// Opening the device at a position and its management interface.
pub open spec fn reach_management(position: usize) -> Seq<Action> {
    seq![
        Action::OpenDevice { position },
        Action::Claim { role: Role::Management, interface: 0 },
        Action::SelectAlternate { role: Role::Management, setting: 1 },
        Action::OpenIn { role: Role::Management, endpoint: 0x81 },
        Action::OpenOut { role: Role::Management, endpoint: 0x01 },
    ]
}

/// Loading the bitstream through the configuration interface, which is closed behind it.
pub open spec fn load_gateware() -> Seq<Action> {
    seq![
        Action::Claim { role: Role::Configuration, interface: 1 },
        Action::SelectAlternate { role: Role::Configuration, setting: 3 },
        Action::OpenOut { role: Role::Configuration, endpoint: 0x02 },
        Action::WriteBitstream,
        Action::SelectAlternate { role: Role::Configuration, setting: 0 },
    ]
}

/// Claiming and enabling both pipes of the UART, and opening their endpoints.
pub open spec fn reach_uart(resource: ValidatedResource) -> Seq<Action> {
    let pipe = resource.manifest.pipe;
    seq![
        Action::Claim { role: Role::Rx, interface: pipe.rx.interface },
        Action::Claim { role: Role::Tx, interface: pipe.tx.interface },
        Action::SelectAlternate { role: Role::Rx, setting: pipe.rx.alternate_setting },
        Action::SelectAlternate { role: Role::Tx, setting: pipe.tx.alternate_setting },
        Action::OpenIn { role: Role::Rx, endpoint: pipe.rx.endpoint },
        Action::OpenOut { role: Role::Tx, endpoint: pipe.tx.endpoint },
    ]
}

/// Uploading firmware to the device at a position: every RAM write of the plan, once and in
/// order.
pub open spec fn upload_firmware(resource: ValidatedResource, position: usize) -> Seq<Action> {
    let count = upload(resource.manifest.firmware.segments@).0.len();
    seq![
        Action::OpenDevice { position },
        Action::Claim { role: Role::Upload, interface: 0 },
    ] + Seq::new(count, |i: int| Action::WriteRam { index: i as usize })
}

/// What a run has done before it opens the device for good.
pub open spec fn preparation(resource: ValidatedResource, start: ProvisionView) -> Seq<Action> {
    if start.step is UploadOpen {
        upload_firmware(resource, start.device.native.position)
    } else {
        Seq::empty()
    }
}

/// All that a run has done before it deals with the pipes of the UART.
pub open spec fn approach(position: usize, loads: bool) -> Seq<Action> {
    reach_management(position) + (if loads {
        load_gateware()
    } else {
        Seq::empty()
    })
}

/// What a run has done when it is at a step; nothing is said of a failure.
spec fn done_by(
    resource: ValidatedResource,
    start: ProvisionView,
    state: ProvisionView,
    loads: bool,
) -> Option<Seq<Action>> {
    let first = preparation(resource, start);
    let upload = upload_firmware(resource, start.device.native.position);
    let position = state.device.native.position;
    let management = reach_management(position);
    let loading = approach(position, true);
    let whole = approach(position, loads) + reach_uart(resource);
    let near = approach(position, loads).len() as int;
    match state.step {
        StepView::UploadOpen => Some(upload.take(0)),
        StepView::UploadClaim => Some(upload.take(1)),
        StepView::UploadWrite(index) => Some(upload.take(2 + index)),
        StepView::Enumerate(_) | StepView::EnumeratePause(_) => Some(upload),
        StepView::Open => Some(first + management.take(0)),
        StepView::ClaimManagement => Some(first + management.take(1)),
        StepView::EnableManagement => Some(first + management.take(2)),
        StepView::ManagementIn => Some(first + management.take(3)),
        StepView::ManagementOut => Some(first + management.take(4)),
        StepView::CheckStatus => Some(first + management),
        StepView::ClaimConfiguration => Some(first + loading.take(5)),
        StepView::SelectConfiguration => Some(first + loading.take(6)),
        StepView::ConfigurationEndpoint => Some(first + loading.take(7)),
        StepView::WriteBitstream => Some(first + loading.take(8)),
        StepView::Load(_) | StepView::LoadPause(_) | StepView::CloseConfiguration => Some(
            first + loading.take(9),
        ),
        StepView::Confirm(_) | StepView::ConfirmPause(_) => Some(first + loading),
        StepView::ClaimRx => Some(first + whole.take(near)),
        StepView::ClaimTx => Some(first + whole.take(near + 1)),
        StepView::EnableRx => Some(first + whole.take(near + 2)),
        StepView::EnableTx => Some(first + whole.take(near + 3)),
        StepView::RxEndpoint => Some(first + whole.take(near + 4)),
        StepView::TxEndpoint => Some(first + whole.take(near + 5)),
        StepView::PacketSizes | StepView::WriteBaud | StepView::SetVoltage | StepView::SetPulls
        | StepView::ReadErrors | StepView::ReadOverflow { .. } | StepView::Opened { .. } => Some(
            first + whole,
        ),
        StepView::Failed(_) => None,
    }
}

/// Whether a step belongs to a firmware upload.
spec fn uploading_step(step: StepView) -> bool {
    match step {
        StepView::UploadOpen | StepView::UploadClaim | StepView::UploadWrite(_)
        | StepView::Enumerate(_) | StepView::EnumeratePause(_) => true,
        _ => false,
    }
}

/// What holds of every run.
spec fn on_course(
    resource: ValidatedResource,
    start: ProvisionView,
    state: ProvisionView,
    loads: bool,
    done: Seq<Action>,
) -> bool {
    &&& done_by(resource, start, state, loads) matches Some(expected) ==> done == expected
    &&& uploading_step(state.step) ==> start.step is UploadOpen && state.device == start.device
    &&& state.step matches StepView::UploadWrite(index) ==> index < upload(
        resource.manifest.firmware.segments@,
    ).0.len()
    &&& !(start.step is UploadOpen) ==> state.device == start.device
    &&& start.step is UploadOpen && !uploading_step(state.step) && !(state.step is Failed)
        ==> upload(resource.manifest.firmware.segments@).1 is None && state.device.serial
        == start.device.serial && state.device.path == start.device.path
    &&& state.step is Enumerate || state.step is EnumeratePause ==> upload(
        resource.manifest.firmware.segments@,
    ).1 is None
}

/// One more action of a list.
proof fn lemma_one_more(first: Seq<Action>, list: Seq<Action>, count: int)
    requires
        0 <= count < list.len(),
    ensures
        (first + list.take(count)).push(list[count]) == first + list.take(count + 1),
        list.take(count).push(list[count]) == list.take(count + 1),
        count + 1 == list.len() ==> list.take(count + 1) == list,
{
    assert(list.take(count).push(list[count]) =~= list.take(count + 1));
    assert((first + list.take(count)).push(list[count]) =~= first + list.take(count + 1));
    if count + 1 == list.len() {
        assert(list.take(count + 1) =~= list);
    }
}

/// The lists, end to end.
proof fn lemma_lists(resource: ValidatedResource, position: usize, loads: bool)
    ensures
        approach(position, false) == reach_management(position),
        approach(position, true).len() == 10,
        approach(position, true).take(5) == reach_management(position),
        forall|i: int|
            0 <= i < 5 ==> #[trigger] approach(position, true)[5 + i] == load_gateware()[i],
        ({
            let near = approach(position, loads).len() as int;
            let whole = approach(position, loads) + reach_uart(resource);
            &&& whole.take(near) == approach(position, loads)
            &&& whole.len() == near + 6
            &&& forall|i: int| 0 <= i < 6 ==> #[trigger] whole[near + i] == reach_uart(resource)[i]
        }),
{
    assert(approach(position, false) =~= reach_management(position));
    assert(approach(position, true).take(5) =~= reach_management(position));
    let whole = approach(position, loads) + reach_uart(resource);
    assert(whole.take(approach(position, loads).len() as int) =~= approach(position, loads));
}

/// One action of an upload keeps the course.
#[verifier::spinoff_prover]
proof fn lemma_upload_done(
    resource: ValidatedResource,
    baud: u32,
    start: ProvisionView,
    state: ProvisionView,
    now: nat,
    next: ProvisionView,
    loads: bool,
    done: Seq<Action>,
)
    requires
        upload(resource.manifest.firmware.segments@).0.len() <= usize::MAX,
        state.step is UploadOpen || state.step is UploadClaim || state.step is UploadWrite,
        on_course(resource, start, state, loads, done),
        provision_next(resource, baud, state, now, EventView::Done, next),
    ensures
        on_course(resource, start, next, loads, done.push(asked(resource, state))),
{
    let list = upload_firmware(resource, start.device.native.position);
    let none = Seq::<Action>::empty();
    match state.step {
        StepView::UploadOpen => {
            lemma_one_more(none, list, 0);
        },
        StepView::UploadClaim => {
            lemma_one_more(none, list, 1);
        },
        StepView::UploadWrite(index) => {
            assert(list[2 + index] == Action::WriteRam { index });
            lemma_one_more(none, list, 2 + index);
        },
        _ => {},
    }
}

/// One action on an opened device keeps the course.
#[verifier::spinoff_prover]
#[verifier::rlimit(60)]
proof fn lemma_opening_done(
    resource: ValidatedResource,
    baud: u32,
    start: ProvisionView,
    state: ProvisionView,
    now: nat,
    next: ProvisionView,
    loads: bool,
    done: Seq<Action>,
)
    requires
        !uploading_step(state.step),
        changes_device(asked(resource, state)),
        on_course(resource, start, state, loads, done),
        provision_next(resource, baud, state, now, EventView::Done, next),
    ensures
        on_course(resource, start, next, loads, done.push(asked(resource, state))),
{
    let first = preparation(resource, start);
    let position = state.device.native.position;
    let management = reach_management(position);
    let loading = approach(position, true);
    let whole = approach(position, loads) + reach_uart(resource);
    let near = approach(position, loads).len() as int;
    lemma_lists(resource, position, loads);
    match state.step {
        StepView::Open => lemma_one_more(first, management, 0),
        StepView::ClaimManagement => lemma_one_more(first, management, 1),
        StepView::EnableManagement => lemma_one_more(first, management, 2),
        StepView::ManagementIn => lemma_one_more(first, management, 3),
        StepView::ManagementOut => lemma_one_more(first, management, 4),
        StepView::ClaimConfiguration => {
            assert(loading[5int + 0] == load_gateware()[0]);
            lemma_one_more(first, loading, 5);
        },
        StepView::SelectConfiguration => {
            assert(loading[5int + 1] == load_gateware()[1]);
            lemma_one_more(first, loading, 6);
        },
        StepView::ConfigurationEndpoint => {
            assert(loading[5int + 2] == load_gateware()[2]);
            lemma_one_more(first, loading, 7);
        },
        StepView::WriteBitstream => {
            assert(loading[5int + 3] == load_gateware()[3]);
            lemma_one_more(first, loading, 8);
        },
        StepView::CloseConfiguration => {
            assert(loading[5int + 4] == load_gateware()[4]);
            lemma_one_more(first, loading, 9);
        },
        StepView::ClaimRx => {
            assert(whole[near + 0] == reach_uart(resource)[0]);
            lemma_one_more(first, whole, near);
        },
        StepView::ClaimTx => {
            assert(whole[near + 1] == reach_uart(resource)[1]);
            lemma_one_more(first, whole, near + 1);
        },
        StepView::EnableRx => {
            assert(whole[near + 2] == reach_uart(resource)[2]);
            lemma_one_more(first, whole, near + 2);
        },
        StepView::EnableTx => {
            assert(whole[near + 3] == reach_uart(resource)[3]);
            lemma_one_more(first, whole, near + 3);
        },
        StepView::RxEndpoint => {
            assert(whole[near + 4] == reach_uart(resource)[4]);
            lemma_one_more(first, whole, near + 4);
        },
        StepView::TxEndpoint => {
            assert(whole[near + 5] == reach_uart(resource)[5]);
            lemma_one_more(first, whole, near + 5);
        },
        _ => {},
    }
}

/// An event that performs no action keeps the course.
#[verifier::spinoff_prover]
proof fn lemma_idle_event(
    resource: ValidatedResource,
    baud: u32,
    start: ProvisionView,
    state: ProvisionView,
    input: Input,
    next: ProvisionView,
    loads: bool,
    done: Seq<Action>,
) -> (still: bool)
    requires
        on_course(resource, start, state, loads, done),
        provision_next(resource, baud, state, input.now, input.event, next),
        !(input.event is Done && changes_device(asked(resource, state))),
    ensures
        on_course(resource, start, next, still, done),
{
    let still = match state.step {
        StepView::CheckStatus => false,
        StepView::Confirm(_) => true,
        _ => loads,
    };
    let list = upload_firmware(resource, start.device.native.position);
    let back = reach_management(next.device.native.position);
    lemma_lists(resource, state.device.native.position, still);
    assert(list + back.take(0) =~= list);
    still
}

/// One event keeps the course.
proof fn lemma_course_step(
    resource: ValidatedResource,
    baud: u32,
    start: ProvisionView,
    state: ProvisionView,
    input: Input,
    next: ProvisionView,
    loads: bool,
    done: Seq<Action>,
) -> (still: bool)
    requires
        upload(resource.manifest.firmware.segments@).0.len() <= usize::MAX,
        on_course(resource, start, state, loads, done),
        provision_next(resource, baud, state, input.now, input.event, next),
    ensures
        on_course(
            resource,
            start,
            next,
            still,
            if input.event is Done && changes_device(asked(resource, state)) {
                done.push(asked(resource, state))
            } else {
                done
            },
        ),
{
    if input.event is Done && changes_device(asked(resource, state)) {
        if uploading_step(state.step) {
            lemma_upload_done(resource, baud, start, state, input.now, next, loads, done);
        } else {
            lemma_opening_done(resource, baud, start, state, input.now, next, loads, done);
        }
        loads
    } else {
        lemma_idle_event(resource, baud, start, state, input, next, loads, done)
    }
}

proof fn lemma_course(
    resource: ValidatedResource,
    baud: u32,
    states: Seq<ProvisionView>,
    inputs: Seq<Input>,
) -> (loads: bool)
    requires
        upload(resource.manifest.firmware.segments@).0.len() <= usize::MAX,
        provision_run(resource, baud, states, inputs),
        states[0].step is Open || states[0].step is UploadOpen,
    ensures
        on_course(
            resource,
            states[0],
            states.last(),
            loads,
            performed(resource, states, inputs),
        ),
    decreases inputs.len(),
{
    if inputs.len() == 0 {
        let start = states[0];
        let upload_all = upload_firmware(resource, start.device.native.position);
        let management = reach_management(start.device.native.position);
        assert(upload_all.take(0) =~= Seq::empty());
        assert(preparation(resource, start) + management.take(0) =~= preparation(resource, start));
        false
    } else {
        let fewer = states.drop_last();
        let earlier = inputs.drop_last();
        assert forall|i: int| 0 <= i < earlier.len() implies #[trigger] stepped(
            resource,
            baud,
            fewer,
            earlier,
            i,
        ) by {
            assert(stepped(resource, baud, states, inputs, i));
        }
        let loads = lemma_course(resource, baud, fewer, earlier);
        assert(fewer[0] == states[0]);
        let n = inputs.len() - 1;
        assert(stepped(resource, baud, states, inputs, n));
        lemma_course_step(
            resource,
            baud,
            states[0],
            states[n],
            inputs[n],
            states[n + 1],
            loads,
            performed(resource, fewer, earlier),
        )
    }
}

/// A run that opens the UART has done exactly this, once and in this order: it uploaded all of
/// the firmware, if it uploads at all; it opened the device and its management interface; it
/// loaded the bitstream, if it loads at all; and it claimed both pipes, enabled both, and opened
/// the endpoint of each.
pub proof fn opened_devices_went_all_the_way(
    resource: ValidatedResource,
    baud: u32,
    states: Seq<ProvisionView>,
    inputs: Seq<Input>,
) -> (loads: bool)
    requires
        upload(resource.manifest.firmware.segments@).0.len() <= usize::MAX,
        provision_run(resource, baud, states, inputs),
        states[0].step is Open || states[0].step is UploadOpen,
        states.last().step is Opened,
    ensures
        performed(resource, states, inputs) == preparation(resource, states[0]) + approach(
            states.last().device.native.position,
            loads,
        ) + reach_uart(resource),
        states.last().device.serial == states[0].device.serial,
        states.last().device.path == states[0].device.path,
{
    let loads = lemma_course(resource, baud, states, inputs);
    let position = states.last().device.native.position;
    assert(preparation(resource, states[0]) + (approach(position, loads) + reach_uart(resource))
        =~= preparation(resource, states[0]) + approach(position, loads) + reach_uart(resource));
    loads
}

/// A run that waits for a device to come back has written all of its firmware: every RAM write
/// of the plan, once and in order, on the device that was selected, and the plan has no fault.
pub proof fn firmware_is_uploaded_whole(
    resource: ValidatedResource,
    baud: u32,
    states: Seq<ProvisionView>,
    inputs: Seq<Input>,
)
    requires
        upload(resource.manifest.firmware.segments@).0.len() <= usize::MAX,
        provision_run(resource, baud, states, inputs),
        states[0].step is Open || states[0].step is UploadOpen,
        states.last().step is Enumerate || states.last().step is EnumeratePause,
    ensures
        performed(resource, states, inputs) == upload_firmware(
            resource,
            states[0].device.native.position,
        ),
        upload(resource.manifest.firmware.segments@).1 is None,
        states[0].step is UploadOpen,
{
    lemma_course(resource, baud, states, inputs);
}

/// Whether a command asks for the state of the FPGA.
pub open spec fn asks_status(command: Seq<u8>) -> bool {
    command == seq![0x22u8]
}

/// Whether a command asks for the configuration of the FPGA with the bitstream of a resource: it
/// carries the length of the bitstream, least significant byte first, and its identifier.
pub open spec fn asks_load(resource: ValidatedResource, command: Seq<u8>) -> bool {
    &&& command.len() == 13
    &&& command[0] == 0x20
    &&& little_endian_value(command.subrange(1, 5)) == resource.embedded.bitstream@.len()
    &&& command.subrange(5, 13) == resource.bitstream_id@
}

/// Whether an answer says that the FPGA holds the bitstream of a resource.
pub open spec fn reports_bitstream(resource: ValidatedResource, answer: Seq<u8>) -> bool {
    &&& answer.len() == 13
    &&& answer[0] == 0
    &&& answer.subrange(5, 13) == resource.bitstream_id@
    &&& answer.subrange(5, 13) != seq![0u8, 0u8, 0u8, 0u8, 0u8, 0u8, 0u8, 0u8]
}

/// Whether an answer holds the value of a register, least significant byte first.
pub open spec fn answers_register(width: u8, answer: Seq<u8>, value: u32) -> bool {
    &&& answer.len() == width + 1
    &&& answer[0] == 0
    &&& little_endian_value(answer.skip(1)) as u32 == value
}

/// Whether a conversation is about the configuration of the FPGA alone, and begins with a look
/// at it.
pub open spec fn about_configuration(
    resource: ValidatedResource,
    talk: Seq<(Seq<u8>, Seq<u8>)>,
) -> bool {
    &&& talk.len() > 0
    &&& asks_status(talk[0].0)
    &&& forall|i: int|
        0 <= i < talk.len() ==> asks_status((#[trigger] talk[i]).0) || asks_load(
            resource,
            talk[i].0,
        )
}

/// Whether the first `count` exchanges of a conversation configure the UART: they set the
/// clock divisor, switch on 3.3 V on port A, pull up its first pin, and read both counters; all
/// that is set is acknowledged.
pub open spec fn configures_uart(
    resource: ValidatedResource,
    baud: u32,
    talk: Seq<(Seq<u8>, Seq<u8>)>,
    count: int,
) -> bool {
    let registers = resource.manifest.registers;
    &&& talk.len() == count
    &&& count >= 1 ==> (glasgow_baud(baud) matches Ok((divisor, _)) && talk[0] == (
        write_payload(registers.baud_divisor, divisor),
        seq![0u8],
    ))
    &&& count >= 2 ==> talk[1] == (
        seq![0x30u8, 1, 0xe4, 0x0c, 0xe4, 0x0c, 0xe4, 0x0c, 0xe4, 0x0c],
        seq![0u8],
    )
    &&& count >= 3 ==> talk[2] == (seq![0x3au8, 1, 0, 1, 0, 0, 0, 0, 0, 0], seq![0u8])
    &&& count >= 4 ==> talk[3].0 == seq![
        0x29u8,
        registers.rx_errors.address,
        registers.rx_errors.storage_bytes,
    ]
    &&& count >= 5 ==> talk[4].0 == seq![
        0x29u8,
        registers.rx_overflow.address,
        registers.rx_overflow.storage_bytes,
    ]
}

/// How much of the conversation is about the UART when a run is at a step.
spec fn uart_exchanges(step: StepView) -> int {
    match step {
        StepView::SetVoltage => 1,
        StepView::SetPulls => 2,
        StepView::ReadErrors => 3,
        StepView::ReadOverflow { .. } => 4,
        StepView::Opened { .. } => 5,
        _ => 0,
    }
}

/// Whether a step comes before the first command is answered.
spec fn before_first_answer(step: StepView) -> bool {
    match step {
        StepView::Open | StepView::ClaimManagement | StepView::EnableManagement
        | StepView::ManagementIn | StepView::ManagementOut | StepView::CheckStatus => true,
        _ => uploading_step(step),
    }
}

/// What holds of the conversation of every run: `early` of it is about the configuration.
spec fn on_topic(
    resource: ValidatedResource,
    baud: u32,
    state: ProvisionView,
    loads: bool,
    early: Seq<(Seq<u8>, Seq<u8>)>,
    talk: Seq<(Seq<u8>, Seq<u8>)>,
) -> bool {
    let registers = resource.manifest.registers;
    let late = talk.skip(early.len() as int);
    let payload = state.payload;
    state.step is Failed || {
        &&& early.len() <= talk.len()
        &&& talk == early + late
        &&& configures_uart(resource, baud, late, uart_exchanges(state.step))
        &&& before_first_answer(state.step) ==> early.len() == 0
        &&& !before_first_answer(state.step) ==> about_configuration(resource, early) && (loads
            <==> !reports_bitstream(resource, early[0].1))
        &&& match state.step {
            StepView::CheckStatus => asks_status(payload),
            StepView::ClaimConfiguration | StepView::SelectConfiguration
            | StepView::ConfigurationEndpoint | StepView::WriteBitstream
            | StepView::LoadPause(_) | StepView::CloseConfiguration
            | StepView::ConfirmPause(_) => loads,
            StepView::Load(_) => loads && asks_load(resource, payload),
            StepView::Confirm(_) => loads && asks_status(payload),
            StepView::WriteBaud => glasgow_baud(baud) matches Ok((divisor, _)) && payload
                == write_payload(registers.baud_divisor, divisor),
            StepView::SetVoltage => payload == seq![
                0x30u8,
                1,
                0xe4,
                0x0c,
                0xe4,
                0x0c,
                0xe4,
                0x0c,
                0xe4,
                0x0c,
            ],
            StepView::SetPulls => payload == seq![0x3au8, 1, 0, 1, 0, 0, 0, 0, 0, 0],
            StepView::ReadErrors => payload == seq![
                0x29u8,
                registers.rx_errors.address,
                registers.rx_errors.storage_bytes,
            ],
            StepView::ReadOverflow { errors } => {
                &&& payload == seq![
                    0x29u8,
                    registers.rx_overflow.address,
                    registers.rx_overflow.storage_bytes,
                ]
                &&& answers_register(registers.rx_errors.storage_bytes, late[3].1, errors)
            },
            StepView::Opened { errors, overflow } => {
                &&& answers_register(registers.rx_errors.storage_bytes, late[3].1, errors)
                &&& answers_register(registers.rx_overflow.storage_bytes, late[4].1, overflow)
            },
            _ => true,
        }
        &&& past_configuration(state.step) ==> asks_status(early.last().0) && reports_bitstream(
            resource,
            early.last().1,
        )
    }
}

/// The fixed commands, spelled out.
proof fn lemma_fixed_commands(resource: ValidatedResource)
    ensures
        asks_status(status_payload()),
        load_request_result(
            resource.embedded.bitstream@.len(),
            resource.bitstream_id@,
        ) matches Ok(payload) ==> asks_load(resource, payload),
        voltage_payload(true) == seq![0x30u8, 1, 0xe4, 0x0c, 0xe4, 0x0c, 0xe4, 0x0c, 0xe4, 0x0c],
        pulls_payload(true) == seq![0x3au8, 1, 0, 1, 0, 0, 0, 0, 0, 0],
{
    reveal_with_fuel(little_endian, 5);
    assert(voltage_payload(true) =~= seq![
        0x30u8,
        1,
        0xe4,
        0x0c,
        0xe4,
        0x0c,
        0xe4,
        0x0c,
        0xe4,
        0x0c,
    ]);
    assert(pulls_payload(true) =~= seq![0x3au8, 1, 0, 1, 0, 0, 0, 0, 0, 0]);
    let length = resource.embedded.bitstream@.len();
    if length <= u32::MAX {
        let payload = load_payload(length, resource.bitstream_id@);
        lemma_little_endian(length, 4);
        reveal_with_fuel(vstd::arithmetic::power::pow, 5);
        assert(payload.subrange(1, 5) =~= little_endian(length, 4));
        assert(payload.subrange(5, 13) =~= resource.bitstream_id@);
    }
}

#[verifier::spinoff_prover]
#[verifier::rlimit(80)]
proof fn lemma_topic_step(
    resource: ValidatedResource,
    baud: u32,
    state: ProvisionView,
    input: Input,
    next: ProvisionView,
    loads: bool,
    early: Seq<(Seq<u8>, Seq<u8>)>,
    talk: Seq<(Seq<u8>, Seq<u8>)>,
) -> (still: (bool, Seq<(Seq<u8>, Seq<u8>)>))
    requires
        on_topic(resource, baud, state, loads, early, talk),
        provision_next(resource, baud, state, input.now, input.event, next),
    ensures
        ({
            let response = reply(state, input.event);
            on_topic(
                resource,
                baud,
                next,
                still.0,
                still.1,
                if response is Some && asked(resource, state) == Action::Exchange {
                    talk.push((state.payload, response->0))
                } else {
                    talk
                },
            )
        }),
{
    lemma_fixed_commands(resource);
    let response = reply(state, input.event);
    if response is Some && asked(resource, state) == Action::Exchange && !(next.step is Failed) {
        let pair = (state.payload, response->0);
        let said = talk.push(pair);
        let longer = early.push(pair);
        let late = talk.skip(early.len() as int);
        match state.step {
            StepView::CheckStatus => {
                assert(talk =~= Seq::empty());
                assert(early =~= Seq::empty());
                assert(said =~= longer + said.skip(1));
                assert(said.skip(1) =~= Seq::empty());
                (!reports_bitstream(resource, response->0), longer)
            },
            StepView::Load(_) | StepView::Confirm(_) => {
                assert(late =~= Seq::empty());
                assert(said =~= longer + said.skip(longer.len() as int));
                assert(said.skip(longer.len() as int) =~= Seq::empty());
                assert(longer[0] == early[0]);
                assert forall|i: int| 0 <= i < longer.len() implies asks_status(
                    (#[trigger] longer[i]).0,
                ) || asks_load(resource, longer[i].0) by {
                    if i < early.len() {
                        assert(longer[i] == early[i]);
                    }
                }
                (loads, longer)
            },
            _ => {
                assert(said.skip(early.len() as int) =~= late.push(pair));
                assert(said =~= early + said.skip(early.len() as int));
                (loads, early)
            },
        }
    } else {
        (loads, early)
    }
}

proof fn lemma_topic(
    resource: ValidatedResource,
    baud: u32,
    states: Seq<ProvisionView>,
    inputs: Seq<Input>,
) -> (found: (bool, Seq<(Seq<u8>, Seq<u8>)>))
    requires
        provision_run(resource, baud, states, inputs),
        states[0].step is Open || states[0].step is UploadOpen,
    ensures
        on_topic(
            resource,
            baud,
            states.last(),
            found.0,
            found.1,
            conversed(resource, states, inputs),
        ),
    decreases inputs.len(),
{
    if inputs.len() == 0 {
        let none = Seq::<(Seq<u8>, Seq<u8>)>::empty();
        assert(none =~= none + none.skip(0));
        (false, none)
    } else {
        let fewer = states.drop_last();
        let earlier = inputs.drop_last();
        assert forall|i: int| 0 <= i < earlier.len() implies #[trigger] stepped(
            resource,
            baud,
            fewer,
            earlier,
            i,
        ) by {
            assert(stepped(resource, baud, states, inputs, i));
        }
        let (loads, early) = lemma_topic(resource, baud, fewer, earlier);
        let n = inputs.len() - 1;
        assert(stepped(resource, baud, states, inputs, n));
        lemma_topic_step(
            resource,
            baud,
            states[n],
            inputs[n],
            states[n + 1],
            loads,
            early,
            conversed(resource, fewer, earlier),
        )
    }
}

/// A run that opens the UART has said exactly this to the device, each under its serial number:
/// first it asked for the state of the FPGA and, unless the bitstream was there, for its
/// configuration, until the FPGA reported the bitstream; then it set the clock divisor of the
/// line rate, the supply and the pulls, all acknowledged, and read both counters, whose values are
/// the baselines.
pub proof fn opened_devices_were_configured(
    resource: ValidatedResource,
    baud: u32,
    states: Seq<ProvisionView>,
    inputs: Seq<Input>,
) -> (early: int)
    requires
        provision_run(resource, baud, states, inputs),
        states[0].step is Open || states[0].step is UploadOpen,
        states.last().step is Opened,
    ensures
        ({
            let talk = conversed(resource, states, inputs);
            let uart = talk.skip(early);
            let registers = resource.manifest.registers;
            &&& 0 < early < talk.len()
            &&& about_configuration(resource, talk.take(early))
            &&& asks_status(talk[early - 1].0) && reports_bitstream(resource, talk[early - 1].1)
            &&& configures_uart(resource, baud, uart, 5)
            &&& states.last().step matches StepView::Opened { errors, overflow }
                && answers_register(registers.rx_errors.storage_bytes, uart[3].1, errors)
                && answers_register(registers.rx_overflow.storage_bytes, uart[4].1, overflow)
        }),
{
    let (_, early) = lemma_topic(resource, baud, states, inputs);
    let talk = conversed(resource, states, inputs);
    assert(talk.take(early.len() as int) =~= early);
    assert(talk[early.len() - 1] == early.last());
    early.len() as int
}

/// An action that was done leads on: it fails nothing, but for firmware that cannot be written
/// whole and a bitstream whose length no command can carry.
pub proof fn done_actions_lead_on(
    resource: ValidatedResource,
    baud: u32,
    state: ProvisionView,
    now: nat,
    next: ProvisionView,
)
    requires
        provision_next(resource, baud, state, now, EventView::Done, next),
        changes_device(asked(resource, state)),
        state.step matches StepView::UploadWrite(index) ==> index < usize::MAX,
    ensures
        next.step is Failed ==> {
            ||| (state.step is UploadClaim || state.step is UploadWrite) && upload(
                resource.manifest.firmware.segments@,
            ).1 is Some
            ||| state.step is WriteBitstream && resource.embedded.bitstream@.len() > 0xffff_ffff
        },
        next.step != state.step,
        next.device == state.device,
{
}

/// The endpoints are accepted exactly where both take packets of the sizes in the manifest, and
/// the line rate exactly where the hardware makes it.
pub proof fn packet_sizes_are_checked(
    resource: ValidatedResource,
    baud: u32,
    state: ProvisionView,
    now: nat,
    rx: usize,
    tx: usize,
    next: ProvisionView,
)
    requires
        state.step is PacketSizes,
        provision_next(resource, baud, state, now, EventView::PacketSizes { rx, tx }, next),
    ensures
        asked(resource, state) == Action::ReportPacketSizes,
        next.step is WriteBaud <==> rx == resource.manifest.pipe.rx.max_packet && tx
            == resource.manifest.pipe.tx.max_packet && glasgow_baud(baud) is Ok,
        !(next.step is WriteBaud) ==> next.step is Failed,
        next.step matches StepView::Failed(error) ==> (rx == resource.manifest.pipe.rx.max_packet
            && tx == resource.manifest.pipe.tx.max_packet ==> glasgow_baud(baud) == Err::<
            (u32, u32),
            ErrorView,
        >(error)),
{
}

/// An answer decides what follows its command. What is set must be acknowledged, a register must
/// answer with as many bytes as it has, and the FPGA must report its state. A load that is
/// still going on, and a bitstream that is not there yet, are waited for until the deadline.
/// Without an answer under the serial number of the command, the provisioning fails.
pub proof fn answers_decide(
    resource: ValidatedResource,
    baud: u32,
    state: ProvisionView,
    input: Input,
    next: ProvisionView,
)
    requires
        asked(resource, state) == Action::Exchange,
        input.event is Exchanged,
        provision_next(resource, baud, state, input.now, input.event, next),
    ensures
        reply(state, input.event) is None ==> next.step is Failed,
        reply(state, input.event) matches Some(answer) ==> {
            let registers = resource.manifest.registers;
            let reported = answer.len() == 13 && answer[0] == 0;
            let here = reports_bitstream(resource, answer);
            match state.step {
                StepView::CheckStatus => {
                    &&& next.step is Failed <==> !reported
                    &&& next.step is ClaimRx <==> here
                    &&& next.step is ClaimConfiguration <==> reported && !here
                },
                StepView::Load(deadline) => {
                    &&& next.step is CloseConfiguration <==> answer == seq![0u8]
                    &&& next.step == StepView::LoadPause(deadline) <==> answer == seq![1u8]
                        && input.now < deadline
                    &&& next.step is Failed <==> answer != seq![0u8] && !(answer == seq![1u8]
                        && input.now < deadline)
                },
                StepView::Confirm(deadline) => {
                    &&& next.step is ClaimRx <==> here
                    &&& next.step == StepView::ConfirmPause(deadline) <==> reported && !here
                        && input.now < deadline
                    &&& next.step is Failed <==> !here && !(reported && input.now < deadline)
                },
                StepView::WriteBaud => {
                    &&& next.step is SetVoltage <==> answer == seq![0u8]
                    &&& next.step is Failed <==> answer != seq![0u8]
                },
                StepView::SetVoltage => {
                    &&& next.step is SetPulls <==> answer == seq![0u8]
                    &&& next.step is Failed <==> answer != seq![0u8]
                },
                StepView::SetPulls => {
                    &&& next.step is ReadErrors <==> answer == seq![0u8]
                    &&& next.step is Failed <==> answer != seq![0u8]
                },
                StepView::ReadErrors => {
                    let valid = answer.len() == registers.rx_errors.storage_bytes + 1 && answer[0]
                        == 0;
                    &&& next.step is ReadOverflow <==> valid
                    &&& next.step is Failed <==> !valid
                },
                StepView::ReadOverflow { .. } => {
                    let valid = answer.len() == registers.rx_overflow.storage_bytes + 1
                        && answer[0] == 0;
                    &&& next.step is Opened <==> valid
                    &&& next.step is Failed <==> !valid
                },
                _ => false,
            }
        },
{
}

/// A device that gets new firmware is waited for, for ten seconds from the last RAM write, with a
/// tenth of a second between two looks. It is back once a Glasgow with its serial number and its
/// path is there, and it is opened exactly if it then has API level nine and the revision of the
/// resource.
pub proof fn returning_devices_are_waited_for(
    resource: ValidatedResource,
    baud: u32,
    state: ProvisionView,
    input: Input,
    next: ProvisionView,
)
    requires
        provision_next(resource, baud, state, input.now, input.event, next),
    ensures
        next.step matches StepView::Enumerate(deadline) ==> {
            ||| state.step == StepView::Enumerate(deadline)
            ||| state.step == StepView::EnumeratePause(deadline)
            ||| deadline == input.now + 10_000_000_000 && (state.step is UploadClaim
                || state.step is UploadWrite)
        },
        state.step is EnumeratePause ==> asked(resource, state) == (Action::Pause { millis: 100 }),
        state.step matches StepView::EnumeratePause(deadline) ==> (input.event is Done
            ==> next.step == StepView::Enumerate(deadline)),
        state.step is Enumerate ==> asked(resource, state) == Action::Enumerate,
        state.step matches StepView::Enumerate(deadline) ==> (input.event matches EventView::Enumerated(
            Ok(found),
        ) ==> {
            let devices = listed(found);
            let back = exists|i: int|
                0 <= i < devices.len() && (#[trigger] devices[i]).serial == state.device.serial
                    && devices[i].path == state.device.path;
            &&& back ==> {
                &&& devices.contains(next.device)
                &&& next.device.serial == state.device.serial
                &&& next.device.path == state.device.path
                &&& next.step is Open <==> next.device.api_level == 9 && next.device.revision
                    == resource.manifest.revision@
                &&& next.step is Open || next.step is Failed
            }
            &&& !back && input.now < deadline ==> next.step == StepView::EnumeratePause(deadline)
            &&& !back && input.now >= deadline ==> (next.step matches StepView::Failed(error)
                && error.category == Category::Timeout)
        }),
        state.step is Enumerate ==> (input.event matches EventView::Enumerated(Err(_))
            ==> next.step is Failed),
{
    if let StepView::Enumerate(_) = state.step {
        if let EventView::Enumerated(Ok(found)) = input.event {
            let devices = listed(found);
            if exists|i: int|
                0 <= i < devices.len() && (#[trigger] devices[i]).serial == state.device.serial
                    && devices[i].path == state.device.path {
                let i = choose|i: int|
                    0 <= i < devices.len() && (#[trigger] devices[i]).serial
                        == state.device.serial && devices[i].path == state.device.path;
                assert(same_device(devices[i], state.device));
                let position = choose|position: int| #[trigger]
                    back_at(devices, state.device, position) && next == after_return(
                        resource,
                        state,
                        devices[position],
                    );
                assert(devices[position] == next.device);
            } else {
                assert forall|i: int| 0 <= i < devices.len() implies !same_device(
                    #[trigger] devices[i],
                    state.device,
                ) by {}
            }
        }
    }
}

/// The FPGA is waited for, for two seconds from the end of its upload and for two more from the
/// end of its configuration, with a hundredth of a second between two commands. A pause changes
/// no deadline.
pub proof fn configuration_is_waited_for(
    resource: ValidatedResource,
    baud: u32,
    state: ProvisionView,
    input: Input,
    next: ProvisionView,
)
    requires
        provision_next(resource, baud, state, input.now, input.event, next),
    ensures
        next.step matches StepView::Load(deadline) ==> {
            ||| state.step == StepView::Load(deadline)
            ||| state.step == StepView::LoadPause(deadline)
            ||| state.step is WriteBitstream && deadline == input.now
                + 2_000_000_000
        },
        next.step matches StepView::Confirm(deadline) ==> {
            ||| state.step == StepView::Confirm(deadline)
            ||| state.step == StepView::ConfirmPause(deadline)
            ||| state.step is CloseConfiguration && deadline == input.now
                + 2_000_000_000
        },
        state.step is LoadPause || state.step is ConfirmPause ==> asked(resource, state) == (
        Action::Pause { millis: 10 }),
        state.step is ConfirmPause && input.event is Done ==> next.step is Confirm,
        state.step is LoadPause && input.event is Done && resource.embedded.bitstream@.len()
            <= 0xffff_ffff ==> next.step is Load,
{
}

/// New firmware goes to a device whose firmware has another level than nine, and to no other; and
/// only to one that is a Glasgow by its USB identity.
pub proof fn firmware_goes_where_it_is_needed(device: GlasgowDeviceView)
    ensures
        provision_start(device) is Open <==> device.api_level == 9,
        provision_start(device) is UploadOpen <==> device.api_level != 9
            && device.native.vendor_id == 0x20b7 && device.native.product_id == 0x9db1,
        provision_start(device) is Open || provision_start(device) is UploadOpen
            || provision_start(device) is Failed,
{
}

/// An action that failed ends the provisioning with the reason that was given: an endpoint that
/// cannot be opened as a protocol error, and anything else that is done to the device as an access
/// error.
pub proof fn failed_actions_end_it(
    resource: ValidatedResource,
    baud: u32,
    state: ProvisionView,
    now: nat,
    reason: Seq<char>,
    next: ProvisionView,
)
    requires
        provision_next(resource, baud, state, now, EventView::Failed(reason), next),
    ensures
        changes_device(asked(resource, state)) ==> (next.step matches StepView::Failed(error) && {
            let endpoint = asked(resource, state) is OpenIn || asked(resource, state) is OpenOut;
            &&& endpoint ==> error.category == Category::Protocol
            &&& !endpoint ==> error.category == Category::Access
            &&& error.message.len() >= reason.len()
            &&& error.message.skip(error.message.len() - reason.len()) == reason
        }),
        !changes_device(asked(resource, state)) ==> next == state,
{
    if changes_device(asked(resource, state)) {
        let message = next.step->Failed_0.message;
        assert(message.skip(message.len() - reason.len()) =~= reason);
    }
}

/// Every command has a serial number of its own: one that is sent has the number after that of the
/// command before, from 1 to 255 and round again, and as long as none is sent the numbers stay.
pub proof fn commands_are_numbered_in_turn(
    resource: ValidatedResource,
    baud: u32,
    state: ProvisionView,
    input: Input,
    next: ProvisionView,
)
    requires
        provision_next(resource, baud, state, input.now, input.event, next),
    ensures
        asked(resource, next) == Action::Exchange && next != state ==> {
            &&& next.serial == state.next
            &&& state.next < 255 ==> next.next == state.next + 1
            &&& state.next == 255 ==> next.next == 1
        },
        asked(resource, next) != Action::Exchange ==> next.serial == state.serial && next.next
            == state.next && next.payload == state.payload,
{
}

/// An opened UART is described as it was opened: under the serial number and at the path of its
/// device, with the rate that was asked for and the rate that the divisor written to it makes of
/// the 48 MHz clock.
pub proof fn opened_uarts_are_described(device: GlasgowDeviceView, baud: u32)
    requires
        glasgow_baud(baud) is Ok,
    ensures
        ({
            let metadata = opened_metadata(device, baud);
            let divisor = (glasgow_baud(baud)->Ok_0).0;
            &&& metadata.backend is Glasgow
            &&& device.serial is Some ==> Some(metadata.serial) == device.serial
            &&& metadata.path == Some(device.path)
            &&& metadata.requested_baud == baud
            &&& metadata.actual_baud == 48_000_000int / divisor as int
            &&& metadata.minimum_baud == 9_600
            &&& metadata.maximum_baud == 12_000_000
        }),
{
    lemma_glasgow_bounds(baud);
}

}
