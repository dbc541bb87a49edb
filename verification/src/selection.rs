//! Selection of one device by its serial number.

use vstd::prelude::*;

use crate::text::borrowed_view;

verus! {

/// Something with a serial number to select it by.
pub trait Serialled: Sized + DeepView {
    /// The serial number, which may be missing.
    spec fn serial(view: Self::V) -> Option<Seq<char>>;

    /// Whether it has the given serial number.
    fn has_serial(&self, serial: &str) -> (same: bool)
        ensures
            same == (Self::serial(self.deep_view()) == Some(serial@)),
    ;
}

/// Whether a device meets a request: it has the requested serial number, if one is requested.
pub open spec fn meets<T: Serialled>(requested: Option<Seq<char>>) -> spec_fn(T::V) -> bool {
    |device: T::V| requested is None || T::serial(device) == requested
}

/// The devices that meet a request, in their order.
pub open spec fn matching<T: Serialled>(
    devices: Seq<T::V>,
    requested: Option<Seq<char>>,
) -> Seq<T::V> {
    devices.filter(meets::<T>(requested))
}

/// How many devices meet a request, and the position of the only one.
#[derive(Clone, Copy, Debug, PartialEq, Eq, Structural)]
pub enum Match {
    Missing,
    Single(usize),
    Several,
}

/// Whether `found` describes `matching`, which was picked from `devices`.
pub open spec fn describes<V>(found: Match, devices: Seq<V>, matching: Seq<V>) -> bool {
    match found {
        Match::Missing => matching.len() == 0,
        Match::Single(at) => matching.len() == 1 && at < devices.len() && devices[at as int]
            == matching[0],
        Match::Several => matching.len() >= 2,
    }
}

/// Counts one more candidate at `at`.
pub fn counted(found: Match, at: usize) -> (more: Match)
    ensures
        more == (match found {
            Match::Missing => Match::Single(at),
            _ => Match::Several,
        }),
{
    match found {
        Match::Missing => Match::Single(at),
        _ => Match::Several,
    }
}

/// Looks for the devices that meet a request.
pub fn find_match<T: Serialled>(devices: &[T], serial: Option<&str>) -> (found: Match)
    ensures
        describes(
            found,
            devices.deep_view(),
            matching::<T>(devices.deep_view(), borrowed_view(serial)),
        ),
{
    let ghost views = devices.deep_view();
    let ghost requested = borrowed_view(serial);
    let mut found = Match::Missing;
    let mut i: usize = 0;
    proof {
        reveal(Seq::filter);
        assert(matching::<T>(views.take(0), requested) =~= Seq::empty());
    }
    while i < devices.len()
        invariant
            i <= devices@.len(),
            views == devices.deep_view(),
            requested == borrowed_view(serial),
            describes(found, views, matching::<T>(views.take(i as int), requested)),
        decreases devices@.len() - i,
    {
        proof {
            reveal(Seq::filter);
            assert(views[i as int] == devices@[i as int].deep_view());
            assert(views.take(i + 1).drop_last() =~= views.take(i as int));
            assert(views.take(i + 1).last() == views[i as int]);
        }
        let wanted = match serial {
            None => true,
            Some(serial) => devices[i].has_serial(serial),
        };
        assert(wanted == meets::<T>(requested)(views[i as int]));
        if wanted {
            found = counted(found, i);
        }
        i = i + 1;
    }
    assert(views.take(i as int) =~= views);
    found
}

/// Whether `at` is the position of the only device that meets a request.
pub open spec fn only_at<T: Serialled>(
    devices: Seq<T::V>,
    requested: Option<Seq<char>>,
    at: int,
) -> bool {
    &&& 0 <= at < devices.len()
    &&& meets::<T>(requested)(devices[at])
    &&& forall|i: int|
        0 <= i < devices.len() && i != at ==> !meets::<T>(requested)(#[trigger] devices[i])
}

/// A device is the one match exactly where it meets the request and no other device does.
pub proof fn single_match_is_exclusive<T: Serialled>(
    devices: Seq<T::V>,
    requested: Option<Seq<char>>,
)
    ensures
        matching::<T>(devices, requested).len() == 1 <==> exists|at: int|
            only_at::<T>(devices, requested, at),
        forall|at: int| #[trigger]
            only_at::<T>(devices, requested, at) ==> matching::<T>(devices, requested)[0]
                == devices[at],
    decreases devices.len(),
{
    reveal(Seq::filter);
    let found = matching::<T>(devices, requested);
    if devices.len() > 0 {
        let rest = devices.drop_last();
        let last = devices.len() - 1;
        single_match_is_exclusive::<T>(rest, requested);
        lemma_no_match::<T>(rest, requested);
        if meets::<T>(requested)(devices[last]) {
            if matching::<T>(rest, requested).len() == 0 {
                assert forall|i: int| 0 <= i < last implies !meets::<T>(requested)(
                    #[trigger] devices[i],
                ) by {
                    assert(rest[i] == devices[i]);
                }
                assert(only_at::<T>(devices, requested, last));
            }
            assert forall|at: int| #[trigger] only_at::<T>(devices, requested, at) implies at
                == last && found.len() == 1 by {
                if at != last {
                    assert(!meets::<T>(requested)(devices[last]));
                }
                assert forall|i: int| 0 <= i < last implies !meets::<T>(requested)(
                    #[trigger] rest[i],
                ) by {
                    assert(devices[i] == rest[i]);
                }
            }
        } else {
            assert forall|at: int| #[trigger] only_at::<T>(devices, requested, at) implies only_at::<
                T,
            >(rest, requested, at) by {
                assert forall|i: int| 0 <= i < last && i != at implies !meets::<T>(requested)(
                    #[trigger] rest[i],
                ) by {
                    assert(devices[i] == rest[i]);
                }
            }
            if found.len() == 1 {
                let at = choose|at: int| only_at::<T>(rest, requested, at);
                assert forall|i: int| 0 <= i <= last && i != at implies !meets::<T>(requested)(
                    #[trigger] devices[i],
                ) by {
                    if i < last {
                        assert(devices[i] == rest[i]);
                    }
                }
                assert(devices[at] == rest[at]);
                assert(only_at::<T>(devices, requested, at));
            }
        }
    }
}

/// Nothing matches exactly where no device meets the request.
proof fn lemma_no_match<T: Serialled>(devices: Seq<T::V>, requested: Option<Seq<char>>)
    ensures
        matching::<T>(devices, requested).len() == 0 <==> forall|i: int|
            0 <= i < devices.len() ==> !meets::<T>(requested)(#[trigger] devices[i]),
    decreases devices.len(),
{
    reveal(Seq::filter);
    if devices.len() > 0 {
        let rest = devices.drop_last();
        lemma_no_match::<T>(rest, requested);
        assert(forall|i: int| 0 <= i < rest.len() ==> rest[i] == devices[i]);
        if meets::<T>(requested)(devices.last()) {
            assert(devices.last() == devices[devices.len() - 1]);
        } else if matching::<T>(rest, requested).len() == 0 {
            assert forall|i: int| 0 <= i < devices.len() implies !meets::<T>(requested)(
                #[trigger] devices[i],
            ) by {
                if i < rest.len() {
                    assert(rest[i] == devices[i]);
                }
            }
        } else {
            let at = choose|i: int| 0 <= i < rest.len() && meets::<T>(requested)(#[trigger] rest[i]);
            assert(meets::<T>(requested)(devices[at]));
        }
    }
}

}
