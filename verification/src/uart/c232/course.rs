//! What an opened cable has been through, over whole openings.

use vstd::prelude::*;

use crate::baud::{encoded_divisors_make_the_reported_rate, ftdi_baud};
use crate::error::ErrorView;

use super::opening::{opening_action, opening_next, Action, EventView, OpeningView, StepView};
use super::usb::{
    configuration, discovers, is_port_setting, last_endpoint, port_at, setting_port,
    AlternateSetting, ControlRequest, EndpointInfo, PortEndpoints,
};

verus! {

/// Whether `states` are the states that a machine goes through with these events.
pub open spec fn goes_through(states: Seq<OpeningView>, events: Seq<EventView>) -> bool {
    &&& states.len() == events.len() + 1
    &&& forall|i: int|
        0 <= i < events.len() ==> #[trigger] opening_next(states[i], events[i], states[i + 1])
}

/// The actions that were done, in order. Looking at the descriptors changes nothing and is left
/// out.
pub open spec fn performed(states: Seq<OpeningView>, events: Seq<EventView>) -> Seq<Action>
    decreases events.len(),
{
    if events.len() == 0 {
        Seq::empty()
    } else {
        let before = performed(states, events.drop_last());
        let action = opening_action(states[events.len() - 1]);
        if events.last() is Done && action != Action::Finish && action != Action::Describe {
            before.push(action)
        } else {
            before
        }
    }
}

/// A vendor request to the first port.
pub open spec fn to_port(request: u8, value: u16) -> Action {
    Action::Control(ControlRequest { request, value, index: 1 })
}

/// What an opened cable has had done to it before the interface was claimed: its driver was
/// detached, after it was attached where there was none to detach.
pub open spec fn taken_over(position: usize, reattached: bool) -> Seq<Action> {
    if reattached {
        seq![Action::OpenDevice { position }, Action::Attach, Action::Detach]
    } else {
        seq![Action::OpenDevice { position }, Action::Detach]
    }
}

/// What an opened cable has had done to it since: it was claimed, reset, emptied in both
/// directions, set to a latency of 16 milliseconds, to its line rate, to eight data bits, to no
/// flow control and to inactive modem lines, and its two endpoints were opened.
pub open spec fn set_up(rate: ControlRequest, endpoints: PortEndpoints) -> Seq<Action> {
    seq![
        Action::Claim,
        to_port(0, 0),
        to_port(0, 1),
        to_port(0, 2),
        to_port(9, 16),
        Action::Control(rate),
        to_port(4, 8),
        to_port(2, 0),
        to_port(1, 0x0300),
        Action::OpenIn { endpoint: endpoints.rx },
        Action::OpenOut { endpoint: endpoints.tx },
    ]
}

/// Whether the request sets the line rate that the divisor encodes: its low sixteen bits are the
/// value, and the rest stands above the port number in the index.
pub open spec fn sets_rate(rate: ControlRequest, encoded_divisor: u32) -> bool {
    &&& rate.request == 3
    &&& rate.value + 0x1_0000 * (rate.index as int / 256) == encoded_divisor
    &&& rate.index as int % 256 == 1
}

/// The request that sets the line rate carries the whole encoded divisor.
pub proof fn rates_are_set_whole(requested: u32)
    requires
        ftdi_baud(requested) is Ok,
    ensures
        configuration(requested).0.len() == 8,
        sets_rate(configuration(requested).0[4], ftdi_baud(requested)->Ok_0.encoded_divisor),
        configuration(requested).1 == Ok::<u32, ErrorView>(ftdi_baud(requested)->Ok_0.actual),
{
    let encoded = ftdi_baud(requested)->Ok_0.encoded_divisor;
    encoded_divisors_make_the_reported_rate(requested);
    assert(encoded < 0x4_0000);
    let high = (encoded as int / 0x1_0000) % 256;
    assert(high == encoded as int / 0x1_0000);
    assert(high * 256 + 1 <= 0xffff);
    assert((high * 256 + 1) / 256 == high);
    assert((high * 256 + 1) % 256 == 1);
}

/// What was done up to a step.
spec fn up_to(o: OpeningView, reattached: bool) -> Seq<Action> {
    let position = o.device.native;
    let rate = configuration(o.baud).0[4];
    let whole = set_up(rate, o.endpoints);
    match o.step {
        StepView::Open => Seq::empty(),
        StepView::Describe | StepView::Detach | StepView::Attach => seq![
            Action::OpenDevice { position },
        ],
        StepView::DetachAgain => seq![Action::OpenDevice { position }, Action::Attach],
        StepView::Claim => taken_over(position, reattached),
        StepView::Control(index) => taken_over(position, reattached) + whole.take(1 + index),
        StepView::RxEndpoint => taken_over(position, reattached) + whole.take(9),
        StepView::TxEndpoint => taken_over(position, reattached) + whole.take(10),
        StepView::Opened => taken_over(position, reattached) + whole,
        _ => Seq::empty(),
    }
}

/// Whether the machine is on its way, and has done what belongs to its step.
spec fn on_course(o: OpeningView, done: Seq<Action>, reattached: bool) -> bool {
    &&& !(o.step is Restore) && !(o.step is Failed)
    &&& done == up_to(o, reattached)
    &&& o.step matches StepView::Control(index) ==> index < configuration(o.baud).0.len()
    &&& o.step is RxEndpoint || o.step is TxEndpoint || o.step is Opened ==> configuration(
        o.baud,
    ).1 is Ok
}

proof fn lemma_requests(o: OpeningView)
    ensures
        ({
            let requests = configuration(o.baud).0;
            let whole = set_up(requests[4], o.endpoints);
            &&& configuration(o.baud).1 is Ok ==> requests.len() == 8
            &&& configuration(o.baud).1 is Err ==> requests.len() == 4
            &&& forall|i: int|
                0 <= i < requests.len() ==> #[trigger] whole[1 + i] == Action::Control(requests[i])
        }),
{
    let requests = configuration(o.baud).0;
    let whole = set_up(requests[4], o.endpoints);
    assert(whole[1int + 0] == Action::Control(requests[0]));
    assert(whole[1int + 1] == Action::Control(requests[1]));
    assert(whole[1int + 2] == Action::Control(requests[2]));
    assert(whole[1int + 3] == Action::Control(requests[3]));
    if requests.len() > 4 {
        assert(whole[1int + 4] == Action::Control(requests[4]));
        assert(whole[1int + 5] == Action::Control(requests[5]));
        assert(whole[1int + 6] == Action::Control(requests[6]));
        assert(whole[1int + 7] == Action::Control(requests[7]));
    }
}

/// The step of a machine that ended in an opened cable keeps it on course, backwards and
/// forwards: no opened cable comes from a failure.
#[verifier::spinoff_prover]
#[verifier::rlimit(40)]
proof fn lemma_course_step(
    o: OpeningView,
    event: EventView,
    q: OpeningView,
    done: Seq<Action>,
    reattached: bool,
)
    requires
        on_course(o, done, reattached),
        opening_next(o, event, q),
    ensures
        ({
            let action = opening_action(o);
            let more = if event is Done && action != Action::Finish && action != Action::Describe {
                done.push(action)
            } else {
                done
            };
            ||| q.step is Restore
            ||| q.step is Failed
            ||| on_course(q, more, true)
            ||| on_course(q, more, false)
        }),
        o.step is Claim || o.step is Control || o.step is RxEndpoint || o.step is TxEndpoint
            || o.step is Opened ==> ({
            let action = opening_action(o);
            let more = if event is Done && action != Action::Finish && action != Action::Describe {
                done.push(action)
            } else {
                done
            };
            q.step is Restore || q.step is Failed || on_course(q, more, reattached)
        }),
{
    lemma_requests(o);
    let whole = set_up(configuration(o.baud).0[4], o.endpoints);
    let position = o.device.native;
    match o.step {
        StepView::Open => {
            assert(done.push(Action::OpenDevice { position }) =~= seq![
                Action::OpenDevice { position },
            ]);
        },
        StepView::Describe => {},
        StepView::Detach => {
            assert(done.push(Action::Detach) =~= taken_over(position, false));
        },
        StepView::Attach => {
            assert(done.push(Action::Attach) =~= seq![
                Action::OpenDevice { position },
                Action::Attach,
            ]);
        },
        StepView::DetachAgain => {
            assert(done.push(Action::Detach) =~= taken_over(position, true));
        },
        StepView::Claim => {
            assert(done.push(Action::Claim) =~= taken_over(position, reattached) + whole.take(1));
        },
        StepView::Control(index) => {
            assert(opening_action(o) == whole[1 + index as int]);
            assert(done.push(opening_action(o)) =~= taken_over(position, reattached) + whole.take(
                2 + index as int,
            ));
        },
        StepView::RxEndpoint => {
            assert(done.push(opening_action(o)) =~= taken_over(position, reattached) + whole.take(
                10,
            ));
        },
        StepView::TxEndpoint => {
            assert(done.push(opening_action(o)) =~= taken_over(position, reattached) + whole);
        },
        _ => {},
    }
}

proof fn lemma_course(states: Seq<OpeningView>, events: Seq<EventView>)
    requires
        goes_through(states, events),
        states[0].step == StepView::Open,
    ensures
        ({
            let o = states[events.len() as int];
            let done = performed(states, events);
            &&& o.step is Restore || o.step is Failed || on_course(o, done, true) || on_course(
                o,
                done,
                false,
            )
            &&& o.device == states[0].device
            &&& o.baud == states[0].baud
        }),
    decreases events.len(),
{
    if events.len() > 0 {
        let n = events.len() - 1;
        let before = events.drop_last();
        let earlier = states.drop_last();
        assert forall|i: int| 0 <= i < before.len() implies #[trigger] opening_next(
            earlier[i],
            before[i],
            earlier[i + 1],
        ) by {
            assert(opening_next(states[i], events[i], states[i + 1]));
        }
        lemma_course(earlier, before);
        lemma_performed(states, earlier, before);
        assert(opening_next(states[n], events[n], states[n + 1]));
        let done = performed(states, before);
        if on_course(states[n], done, true) {
            lemma_course_step(states[n], events[n], states[n + 1], done, true);
        } else if on_course(states[n], done, false) {
            lemma_course_step(states[n], events[n], states[n + 1], done, false);
        }
    }
}

proof fn lemma_performed(
    states: Seq<OpeningView>,
    earlier: Seq<OpeningView>,
    events: Seq<EventView>,
)
    requires
        earlier == states.drop_last(),
        earlier.len() >= events.len(),
        states.len() > 0,
    ensures
        performed(states, events) == performed(earlier, events),
    decreases events.len(),
{
    if events.len() > 0 {
        lemma_performed(states, earlier, events.drop_last());
    }
}

/// Every opened cable was taken over from its driver, claimed, and set up in full: each action
/// was done once, in this order, and the rate request carries the divisor for the rate that was
/// asked for.
pub proof fn opened_cables_were_set_up(states: Seq<OpeningView>, events: Seq<EventView>)
    requires
        goes_through(states, events),
        states[0].step == StepView::Open,
        states[events.len() as int].step == StepView::Opened,
    ensures
        ({
            let o = states[events.len() as int];
            let rate = configuration(o.baud).0[4];
            let done = performed(states, events);
            &&& o.device == states[0].device && o.baud == states[0].baud
            &&& done == taken_over(o.device.native, false) + set_up(rate, o.endpoints) || done
                == taken_over(o.device.native, true) + set_up(rate, o.endpoints)
            &&& ftdi_baud(o.baud) is Ok
            &&& sets_rate(rate, ftdi_baud(o.baud)->Ok_0.encoded_divisor)
        }),
{
    lemma_course(states, events);
    let o = states[events.len() as int];
    rates_are_set_whole(o.baud);
}

/// A cable that does as it is told is opened: once its port was found, a detached driver, a claim,
/// eight requests and two endpoints later it is open, where the line rate can be made.
pub proof fn willing_cables_are_opened(states: Seq<OpeningView>, events: Seq<EventView>)
    requires
        goes_through(states, events),
        opening_action(states[0]) == Action::Detach,
        events.len() == 12,
        forall|i: int| 0 <= i < 12 ==> #[trigger] events[i] is Done,
        ftdi_baud(states[0].baud) is Ok,
    ensures
        states[12].step == StepView::Opened,
        states[12].endpoints == states[0].endpoints,
{
    lemma_done(states[0], events[0], states[0int + 1]);
    lemma_done(states[1], events[1], states[1int + 1]);
    lemma_done(states[2], events[2], states[2int + 1]);
    lemma_done(states[3], events[3], states[3int + 1]);
    lemma_done(states[4], events[4], states[4int + 1]);
    lemma_done(states[5], events[5], states[5int + 1]);
    lemma_done(states[6], events[6], states[6int + 1]);
    lemma_done(states[7], events[7], states[7int + 1]);
    lemma_done(states[8], events[8], states[8int + 1]);
    lemma_done(states[9], events[9], states[9int + 1]);
    lemma_done(states[10], events[10], states[10int + 1]);
    lemma_done(states[11], events[11], states[11int + 1]);
}

/// Where an action that was done leads, once the port was found.
proof fn lemma_done(o: OpeningView, event: EventView, q: OpeningView)
    requires
        opening_next(o, event, q),
        event is Done,
        ftdi_baud(o.baud) is Ok,
    ensures
        q.baud == o.baud,
        q.endpoints == o.endpoints,
        opening_action(o) == Action::Detach ==> q.step == StepView::Claim,
        o.step == StepView::Claim ==> q.step == StepView::Control(0),
        o.step matches StepView::Control(index) ==> q.step == (if index < 7 {
            StepView::Control((index + 1) as usize)
        } else {
            StepView::RxEndpoint
        }),
        o.step == StepView::RxEndpoint ==> q.step == StepView::TxEndpoint,
        o.step == StepView::TxEndpoint ==> q.step == StepView::Opened,
{
    lemma_requests(o);
}

/// A device is opened first and described then; a driver that is missing is attached and detached
/// once; whatever fails ends the opening, and the first error is the one that is told; and what
/// has ended stays as it is.
pub proof fn openings_proceed(o: OpeningView, event: EventView, q: OpeningView)
    requires
        opening_next(o, event, q),
    ensures
        o.step == StepView::Open && event is Done ==> opening_action(q) == Action::Describe,
        opening_action(o) == Action::Finish ==> q == o,
        o.step == StepView::Detach && event is NoDriver ==> opening_action(q) == Action::Attach
            && q.step !is Restore,
        o.step == StepView::Attach && event is Done ==> opening_action(q) == Action::Detach
            && q.step == StepView::DetachAgain,
        event is Failed && !(o.step is Describe) && opening_action(o) != Action::Finish ==> q.step
            is Failed || q.step is Restore,
        event is NoDriver && o.step != StepView::Detach && !(o.step is Describe) && opening_action(
            o,
        ) != Action::Finish ==> q.step is Failed || q.step is Restore,
        o.step matches StepView::Restore(error) ==> (event !is Described ==> q.step
            == StepView::Failed(error)),
        q.device == o.device && q.baud == o.baud,
        !(o.step is Describe) ==> q.endpoints == o.endpoints,
{
}

/// Whether the endpoint is one for bulk data towards the host, or away from it.
pub open spec fn carries(endpoint: EndpointInfo, input: bool) -> bool {
    endpoint.bulk && endpoint.input == input
}

/// Whether the setting is the default one of the first interface and has a bulk endpoint in each
/// direction.
pub open spec fn has_port(setting: AlternateSetting) -> bool {
    let endpoints = setting.endpoints@;
    &&& setting.interface == 0
    &&& setting.alternate == 0
    &&& exists|i: int| 0 <= i < endpoints.len() && carries(#[trigger] endpoints[i], true)
    &&& exists|i: int| 0 <= i < endpoints.len() && carries(#[trigger] endpoints[i], false)
}

/// The port that is found is that of the first setting that has one, and where a setting has one,
/// a port is found.
pub proof fn found_ports_are_ports(
    settings: Seq<AlternateSetting>,
    found: Result<PortEndpoints, ErrorView>,
)
    requires
        discovers(settings, found),
    ensures
        found matches Ok(port) ==> exists|at: int|
            {
                &&& 0 <= at < settings.len()
                &&& serves(#[trigger] settings[at], port)
                &&& forall|i: int| 0 <= i < at ==> !has_port(#[trigger] settings[i])
            },
        found is Err ==> forall|i: int| 0 <= i < settings.len() ==> !has_port(
            #[trigger] settings[i],
        ),
{
    assert forall|i: int| 0 <= i < settings.len() && has_port(
        #[trigger] settings[i],
    ) implies is_port_setting(settings[i]) by {
        let endpoints = settings[i].endpoints@;
        let is_rx = |e: EndpointInfo| e.bulk && e.input;
        let is_tx = |e: EndpointInfo| e.bulk && !e.input;
        let is_bulk = |e: EndpointInfo| e.bulk;
        let _ = lemma_last_endpoint(endpoints, is_rx);
        let _ = lemma_last_endpoint(endpoints, is_tx);
        let _ = lemma_last_endpoint(endpoints, is_bulk);
        let rx = choose|i: int| 0 <= i < endpoints.len() && carries(#[trigger] endpoints[i], true);
        let tx = choose|i: int| 0 <= i < endpoints.len() && carries(#[trigger] endpoints[i], false);
        assert(is_rx(endpoints[rx]) && is_bulk(endpoints[rx]));
        assert(is_tx(endpoints[tx]));
    }
    if let Ok(port) = found {
        let at = choose|at: int| #[trigger]
            port_at(settings, at) && setting_port(settings[at].endpoints@) == Some(port);
        lemma_served(settings[at], port);
    }
}

/// A setting with a port has the last bulk endpoints for it.
proof fn lemma_served(setting: AlternateSetting, port: PortEndpoints)
    requires
        is_port_setting(setting),
        setting_port(setting.endpoints@) == Some(port),
    ensures
        serves(setting, port),
{
    let endpoints = setting.endpoints@;
    let is_rx = |e: EndpointInfo| e.bulk && e.input;
    let is_tx = |e: EndpointInfo| e.bulk && !e.input;
    let is_bulk = |e: EndpointInfo| e.bulk;
    let rx = lemma_last_endpoint(endpoints, is_rx);
    let tx = lemma_last_endpoint(endpoints, is_tx);
    let last = lemma_last_endpoint(endpoints, is_bulk);
    assert forall|i: int| rx < i < endpoints.len() implies !carries(
        #[trigger] endpoints[i],
        true,
    ) by {
        assert(!is_rx(endpoints[i]));
    }
    assert forall|i: int| tx < i < endpoints.len() implies !carries(
        #[trigger] endpoints[i],
        false,
    ) by {
        assert(!is_tx(endpoints[i]));
    }
    assert(is_last(endpoints, rx, true) && is_last(endpoints, tx, false));
    assert(last >= rx && last >= tx) by {
        assert(is_bulk(endpoints[rx]) && is_bulk(endpoints[tx]));
    }
    assert(last == rx || last == tx) by {
        assert(is_bulk(endpoints[last]));
        if last > rx && last > tx {
            assert(!is_rx(endpoints[last]) && !is_tx(endpoints[last]));
        }
    }
}

/// Whether the position holds the last bulk endpoint of its direction.
pub open spec fn is_last(endpoints: Seq<EndpointInfo>, at: int, input: bool) -> bool {
    &&& 0 <= at < endpoints.len()
    &&& carries(endpoints[at], input)
    &&& forall|i: int| at < i < endpoints.len() ==> !carries(#[trigger] endpoints[i], input)
}

/// Whether the setting is the default one of the first interface and has that port: its last bulk
/// endpoint in each direction, and the packet size of the later one of the two.
pub open spec fn serves(setting: AlternateSetting, port: PortEndpoints) -> bool {
    let endpoints = setting.endpoints@;
    &&& setting.interface == 0
    &&& setting.alternate == 0
    &&& exists|rx: int, tx: int|
        {
            &&& #[trigger] is_last(endpoints, rx, true)
            &&& #[trigger] is_last(endpoints, tx, false)
            &&& endpoints[rx].address == port.rx
            &&& endpoints[tx].address == port.tx
            &&& endpoints[if rx < tx {
                tx
            } else {
                rx
            }].max_packet == port.max_packet
        }
}

/// The last endpoint that qualifies is one, and none qualifies behind it; `at` is its position.
proof fn lemma_last_endpoint(
    endpoints: Seq<EndpointInfo>,
    wanted: spec_fn(EndpointInfo) -> bool,
) -> (at: int)
    ensures
        match last_endpoint(endpoints, wanted) {
            Some(endpoint) => {
                &&& 0 <= at < endpoints.len()
                &&& endpoints[at] == endpoint
                &&& wanted(endpoint)
                &&& forall|i: int| at < i < endpoints.len() ==> !wanted(#[trigger] endpoints[i])
            },
            None => forall|i: int| 0 <= i < endpoints.len() ==> !wanted(#[trigger] endpoints[i]),
        },
    decreases endpoints.len(),
{
    if endpoints.len() == 0 {
        0
    } else if wanted(endpoints.last()) {
        endpoints.len() - 1
    } else {
        let before = endpoints.drop_last();
        let at = lemma_last_endpoint(before, wanted);
        assert forall|i: int|
            0 <= i < endpoints.len() && (last_endpoint(before, wanted) is None || at
                < i) implies !wanted(#[trigger] endpoints[i]) by {
            if i < before.len() {
                assert(before[i] == endpoints[i]);
            }
        }
        at
    }
}

}
