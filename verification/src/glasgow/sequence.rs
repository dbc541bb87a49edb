//! What every provisioning does, in whatever order its events come.

use vstd::prelude::*;

use crate::error::ErrorView;

use super::management::{acknowledgement, command_result, reported_status};
use super::provision::{provision_next, step_error, EventView, ProvisionView, StepView};
use super::resource::ValidatedResource;

verus! {

/// One event of a provisioning and when it came.
pub struct Input {
    pub now: nat,
    pub event: EventView,
}

/// Whether the machine goes through `states` on `inputs`.
pub open spec fn provision_run(
    resource: ValidatedResource,
    baud: u32,
    states: Seq<ProvisionView>,
    inputs: Seq<Input>,
) -> bool {
    &&& states.len() == inputs.len() + 1
    &&& forall|i: int|
        0 <= i < inputs.len() ==> #[trigger] stepped(resource, baud, states, inputs, i)
}

/// Whether the machine takes the input at `i` from one state to the next.
pub open spec fn stepped(
    resource: ValidatedResource,
    baud: u32,
    states: Seq<ProvisionView>,
    inputs: Seq<Input>,
    i: int,
) -> bool {
    provision_next(
        resource,
        baud,
        states[i],
        inputs[i].now,
        inputs[i].event,
        states[i + 1],
    )
}

/// The reply to the command in flight that an event brings, if it brings one.
pub open spec fn reply(state: ProvisionView, event: EventView) -> Option<Seq<u8>> {
    match event {
        EventView::Exchanged(exchange) => match command_result(state.serial, exchange) {
            Ok(response) => Some(response),
            Err(_) => None,
        },
        _ => None,
    }
}

/// Whether the FPGA reports the bitstream of the resource when asked for its state.
pub open spec fn confirms(
    resource: ValidatedResource,
    state: ProvisionView,
    event: EventView,
) -> bool {
    &&& state.step is CheckStatus || state.step is Confirm
    &&& reply(state, event) matches Some(response) && reported_status(response) == Ok::<
        Option<Seq<u8>>,
        ErrorView,
    >(Some(resource.bitstream_id@))
}

/// Whether the device acknowledges the clock divisor.
pub open spec fn sets_baud(state: ProvisionView, event: EventView) -> bool {
    &&& state.step is WriteBaud
    &&& reply(state, event) matches Some(response) && acknowledgement(
        response,
        "register write"@,
    ) is Ok
}

/// Whether a step deals with the UART of a configured FPGA.
pub open spec fn past_configuration(step: StepView) -> bool {
    match step {
        StepView::ClaimRx | StepView::ClaimTx | StepView::EnableRx | StepView::EnableTx
        | StepView::RxEndpoint | StepView::TxEndpoint | StepView::PacketSizes
        | StepView::WriteBaud | StepView::SetVoltage | StepView::SetPulls | StepView::ReadErrors
        | StepView::ReadOverflow { .. } | StepView::Opened { .. } => true,
        _ => false,
    }
}

/// Whether a step comes once the supply is switched on.
pub open spec fn past_supply(step: StepView) -> bool {
    match step {
        StepView::SetVoltage | StepView::SetPulls | StepView::ReadErrors
        | StepView::ReadOverflow { .. } | StepView::Opened { .. } => true,
        _ => false,
    }
}

/// Whether a step belongs to a firmware upload.
pub open spec fn uploads(step: StepView) -> bool {
    match step {
        StepView::UploadOpen | StepView::UploadClaim | StepView::UploadWrite(_)
        | StepView::Enumerate(_) | StepView::EnumeratePause(_) => true,
        _ => false,
    }
}

/// Before the UART of a device is touched, and so before it is opened, the FPGA has reported
/// the bitstream of the resource.
pub proof fn opening_confirms_the_bitstream(
    resource: ValidatedResource,
    baud: u32,
    states: Seq<ProvisionView>,
    inputs: Seq<Input>,
)
    requires
        provision_run(resource, baud, states, inputs),
        !past_configuration(states[0].step),
        past_configuration(states.last().step),
    ensures
        exists|i: int|
            0 <= i < inputs.len() && #[trigger] confirms(resource, states[i], inputs[i].event),
    decreases inputs.len(),
{
    let n = inputs.len() - 1;
    if inputs.len() > 0 {
        assert(stepped(resource, baud, states, inputs, n));
        if past_configuration(states[n].step) {
            let fewer = states.drop_last();
            let earlier = inputs.drop_last();
            assert forall|i: int| 0 <= i < earlier.len() implies #[trigger] stepped(
                resource,
                baud,
                fewer,
                earlier,
                i,
            ) by {
                assert(stepped(resource, baud, states, inputs, i));
            }
            opening_confirms_the_bitstream(resource, baud, fewer, earlier);
            let i = choose|i: int|
                0 <= i < earlier.len() && #[trigger] confirms(
                    resource,
                    fewer[i],
                    earlier[i].event,
                );
            assert(confirms(resource, states[i], inputs[i].event));
        } else {
            assert(confirms(resource, states[n], inputs[n].event));
        }
    }
}

/// The supply of the port is switched on only once the device has acknowledged the clock
/// divisor of the line rate.
pub proof fn supply_follows_the_line_rate(
    resource: ValidatedResource,
    baud: u32,
    states: Seq<ProvisionView>,
    inputs: Seq<Input>,
)
    requires
        provision_run(resource, baud, states, inputs),
        !past_supply(states[0].step),
        past_supply(states.last().step),
    ensures
        exists|i: int| 0 <= i < inputs.len() && #[trigger] sets_baud(states[i], inputs[i].event),
    decreases inputs.len(),
{
    let n = inputs.len() - 1;
    if inputs.len() > 0 {
        assert(stepped(resource, baud, states, inputs, n));
        if past_supply(states[n].step) {
            let fewer = states.drop_last();
            let earlier = inputs.drop_last();
            assert forall|i: int| 0 <= i < earlier.len() implies #[trigger] stepped(
                resource,
                baud,
                fewer,
                earlier,
                i,
            ) by {
                assert(stepped(resource, baud, states, inputs, i));
            }
            supply_follows_the_line_rate(resource, baud, fewer, earlier);
            let i = choose|i: int|
                0 <= i < earlier.len() && #[trigger] sets_baud(fewer[i], earlier[i].event);
            assert(sets_baud(states[i], inputs[i].event));
        } else {
            assert(sets_baud(states[n], inputs[n].event));
        }
    }
}

/// A device whose firmware is compatible is never given other firmware, and stays the device
/// that was selected.
pub proof fn compatible_firmware_is_kept(
    resource: ValidatedResource,
    baud: u32,
    states: Seq<ProvisionView>,
    inputs: Seq<Input>,
    i: int,
)
    requires
        provision_run(resource, baud, states, inputs),
        !uploads(states[0].step),
        0 <= i < states.len(),
    ensures
        !uploads(states[i].step),
        states[i].device == states[0].device,
    decreases i,
{
    if i > 0 {
        compatible_firmware_is_kept(resource, baud, states, inputs, i - 1);
        assert(stepped(resource, baud, states, inputs, i - 1));
    }
}

/// A provisioning that has ended, opened or failed, stays as it is whatever comes.
pub proof fn endings_are_final(
    resource: ValidatedResource,
    baud: u32,
    state: ProvisionView,
    input: Input,
    next: ProvisionView,
)
    requires
        state.step is Opened || state.step is Failed,
        provision_next(resource, baud, state, input.now, input.event, next),
    ensures
        next == state,
{
}

/// An action that fails ends the provisioning, in every step that can fail.
pub proof fn failures_end_the_provisioning(
    resource: ValidatedResource,
    baud: u32,
    state: ProvisionView,
    input: Input,
    reason: Seq<char>,
    next: ProvisionView,
)
    requires
        input.event == EventView::Failed(reason),
        step_error(state.device, state.step, reason) is Some,
        provision_next(resource, baud, state, input.now, input.event, next),
    ensures
        next.step == StepView::Failed(
            step_error(state.device, state.step, reason)->0,
        ),
{
}

}
