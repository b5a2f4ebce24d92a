//! Which device is meant, and where it is, in plain words.

use crate::devices::{
    as_speaker, by_name, devices_meant, eligible, find_speaker, first_hit, first_true, has_ip,
    is_eligible, is_listed, label, law_first_true_is_the_first,
    law_menu_lists_each_player_once, law_sorting_sorts, name_hits, named, pick_address, picked,
    reachable, reachable_speakers, resolve_device, resolve_lowered, scan_speakers, scanned,
    sort_by_name, speaker_label, speaker_of, speakers_meant, v4_flags, Address, Device, DeviceKind,
    Ip, Resolution, Speaker,
};
use crate::laws::text::{differs_at, lemma_fragment_reads, lemma_order_reads, reads_in};
use crate::text::lowercase;
use vstd::prelude::*;
use vstd::string::*;

verus! {

/// `a` is the first IPv4 address, or the first of all where there is none.
pub open spec fn is_pick(addresses: Seq<Address>, a: Address) -> bool {
    ||| exists|i: int|
        0 <= i < addresses.len() && #[trigger] addresses[i] == a && a.ip is V4 && forall|j: int|
            0 <= j < i ==> (#[trigger] addresses[j]).ip is V6
    ||| addresses.len() > 0 && a == addresses[0] && forall|j: int|
        0 <= j < addresses.len() ==> (#[trigger] addresses[j]).ip is V6
}

proof fn lemma_picked(addresses: Seq<Address>)
    ensures
        picked(addresses) is Some <==> addresses.len() > 0,
        picked(addresses) matches Some(a) ==> is_pick(addresses, a),
        forall|a: Address| #[trigger] is_pick(addresses, a) ==> picked(addresses) == Some(a),
{
    let flags = v4_flags(addresses);
    law_first_true_is_the_first(flags);
    assert forall|j: int| 0 <= j < addresses.len() implies flags[j] == !(
    #[trigger] addresses[j].ip is V6) by {
        match addresses[j].ip {
            Ip::V4(_) => {},
            Ip::V6(_) => {},
        }
    }
    match first_true(flags) {
        Some(i) => {
            assert(addresses[i].ip is V4);
            assert forall|j: int| 0 <= j < i implies (#[trigger] addresses[j]).ip is V6 by {
                assert(!flags[j]);
            }
            assert(is_pick(addresses, addresses[i]));
            assert forall|a: Address| #[trigger] is_pick(addresses, a) implies a == addresses[i] by {
                if exists|k: int|
                    0 <= k < addresses.len() && #[trigger] addresses[k] == a && a.ip is V4
                        && forall|j: int| 0 <= j < k ==> (#[trigger] addresses[j]).ip is V6 {
                    let k = choose|k: int|
                        0 <= k < addresses.len() && #[trigger] addresses[k] == a && a.ip is V4
                            && forall|j: int| 0 <= j < k ==> (#[trigger] addresses[j]).ip is V6;
                    if k < i {
                        assert(!flags[k]);
                    } else if i < k {
                        assert(addresses[i].ip is V6);
                    }
                } else {
                    assert(addresses[i].ip is V6);
                }
            }
        },
        None => {
            assert forall|j: int| 0 <= j < addresses.len() implies (
            #[trigger] addresses[j]).ip is V6 by {
                assert(!flags[j]);
            }
        },
    }
}

/// An address is picked exactly when there is one: the first IPv4 address, or the
/// first of all where there is none.
pub proof fn law_first_v4_is_picked(addresses: Vec<Address>, r: Option<Address>)
    requires
        call_ensures(pick_address, (&addresses,), r),
    ensures
        r is Some <==> addresses@.len() > 0,
        r matches Some(a) ==> is_pick(addresses@, a),
{
    lemma_picked(addresses@);
}

/// The device speaks AirPlay 2 and its name holds no `@`.
pub open spec fn can_stream(d: Device) -> bool {
    d.supports_airplay2 && forall|i: int| 0 <= i < d.name@.len() ==> #[trigger] d.name@[i] != '@'
}

proof fn lemma_eligible(d: Device)
    ensures
        is_eligible(d) <==> can_stream(d),
{
    if can_stream(d) && d.name@.contains('@') {
        let i = choose|i: int| 0 <= i < d.name@.len() && d.name@[i] == '@';
        assert(d.name@[i] != '@');
    }
    if is_eligible(d) {
        assert forall|i: int| 0 <= i < d.name@.len() implies #[trigger] d.name@[i] != '@' by {
            if d.name@[i] == '@' {
                assert(d.name@.contains('@'));
            }
        }
    }
}

/// A device is considered exactly when it speaks AirPlay 2 and its name holds no
/// `@`.
pub proof fn law_which_devices_are_considered(d: Device, r: bool)
    requires
        call_ensures(eligible, (&d,), r),
    ensures
        r <==> can_stream(d),
{
    lemma_eligible(d);
}

/// The speaker is the device: by its name and kind, at the address that is picked
/// of its own, on port 7000.
pub open spec fn is_speaker_of(sp: Speaker, d: Device) -> bool {
    &&& sp.name == d.name
    &&& sp.kind == d.kind
    &&& sp.port == 7000
    &&& is_pick(d.addresses@, sp.address)
}

proof fn lemma_speaker_of(d: Device)
    ensures
        speaker_of(d) is Some <==> d.addresses@.len() > 0,
        speaker_of(d) matches Some(sp) ==> is_speaker_of(sp, d),
        forall|sp: Speaker| #[trigger] is_speaker_of(sp, d) ==> speaker_of(d) == Some(sp),
{
    lemma_picked(d.addresses@);
}

/// A device is a speaker exactly when it has an address.
pub proof fn law_speaker_is_its_device(d: Device, r: Option<Speaker>)
    requires
        call_ensures(as_speaker, (&d,), r),
    ensures
        r is Some <==> d.addresses@.len() > 0,
        r matches Some(sp) ==> is_speaker_of(sp, d),
{
    lemma_speaker_of(d);
}

/// Devices that can be streamed to and have an address.
pub open spec fn streamable() -> spec_fn(Device) -> bool {
    |d: Device| can_stream(d) && d.addresses@.len() > 0
}

pub proof fn lemma_reachable(devices: Seq<Device>)
    ensures
        reachable(devices).len() == devices.filter(streamable()).len(),
        forall|k: int|
            0 <= k < reachable(devices).len() ==> is_speaker_of(
                #[trigger] reachable(devices)[k],
                devices.filter(streamable())[k],
            ),
    decreases devices.len(),
{
    reveal(Seq::filter);
    if devices.len() > 0 {
        lemma_reachable(devices.drop_last());
        lemma_eligible(devices.last());
        lemma_speaker_of(devices.last());
    }
}

/// The speakers that can be reached are exactly the devices that can be streamed
/// to and have an address, each once for each time it was found, and in the order
/// found.
pub proof fn law_every_streamable_device_is_reached(devices: Vec<Device>, r: Vec<Speaker>)
    requires
        call_ensures(reachable_speakers, (&devices,), r),
    ensures
        r@.len() == devices@.filter(streamable()).len(),
        forall|k: int|
            0 <= k < r@.len() ==> is_speaker_of(
                #[trigger] r@[k],
                devices@.filter(streamable())[k],
            ),
{
    lemma_reachable(devices@);
}

/// The device belongs in the menu: a HomePod or an Apple TV that can be streamed
/// to and has an address.
pub open spec fn belongs_in_menu(d: Device) -> bool {
    &&& can_stream(d)
    &&& d.kind == DeviceKind::HomePod || d.kind == DeviceKind::AppleTv
    &&& d.addresses@.len() > 0
}

proof fn lemma_listed(d: Device)
    ensures
        is_listed(d) <==> belongs_in_menu(d),
{
    lemma_eligible(d);
    lemma_speaker_of(d);
}

/// No device ahead of the `i`th that belongs in the menu is at this address.
pub open spec fn is_first_at(devices: Seq<Device>, i: int, ip: Ip) -> bool {
    forall|j: int, a: Address|
        0 <= j < i && belongs_in_menu(devices[j]) && #[trigger] is_pick(devices[j].addresses@, a)
            ==> a.ip != ip
}

/// The speaker is the first device of the menu at its address.
pub open spec fn is_first_of(devices: Seq<Device>, sp: Speaker) -> bool {
    exists|i: int|
        0 <= i < devices.len() && belongs_in_menu(#[trigger] devices[i]) && is_speaker_of(
            sp,
            devices[i],
        ) && is_first_at(devices, i, sp.address.ip)
}

proof fn lemma_first_stays(devices: Seq<Device>, d: Device, sp: Speaker)
    requires
        is_first_of(devices, sp),
    ensures
        is_first_of(devices.push(d), sp),
{
    let all = devices.push(d);
    let i = choose|i: int|
        0 <= i < devices.len() && belongs_in_menu(#[trigger] devices[i]) && is_speaker_of(
            sp,
            devices[i],
        ) && is_first_at(devices, i, sp.address.ip);
    assert(all[i] == devices[i]);
    assert forall|j: int, a: Address|
        0 <= j < i && belongs_in_menu(all[j]) && #[trigger] is_pick(all[j].addresses@, a) implies a.ip
        != sp.address.ip by {
        assert(all[j] == devices[j]);
        assert(is_pick(devices[j].addresses@, a));
    }
    assert(is_first_at(all, i, sp.address.ip));
}

proof fn lemma_scanned_firsts(devices: Seq<Device>)
    ensures
        forall|k: int|
            0 <= k < scanned(devices).len() ==> is_first_of(devices, #[trigger] scanned(devices)[k]),
        forall|i: int|
            0 <= i < devices.len() && belongs_in_menu(#[trigger] devices[i]) ==> has_ip(
                scanned(devices),
                picked(devices[i].addresses@)->0.ip,
            ),
    decreases devices.len(),
{
    if devices.len() > 0 {
        let init = devices.drop_last();
        let d = devices.last();
        let rest = scanned(init);
        let all = scanned(devices);
        let n = devices.len() - 1;
        lemma_scanned_firsts(init);
        lemma_listed(d);
        lemma_speaker_of(d);
        assert(init.push(d) =~= devices);
        assert forall|k: int| 0 <= k < all.len() implies is_first_of(
            devices,
            #[trigger] all[k],
        ) by {
            if k < rest.len() {
                assert(all[k] == rest[k]);
                lemma_first_stays(init, d, rest[k]);
            } else {
                let sp = speaker_of(d)->0;
                assert(all[k] == sp);
                assert forall|j: int, a: Address|
                    0 <= j < n && belongs_in_menu(devices[j]) && #[trigger] is_pick(
                        devices[j].addresses@,
                        a,
                    ) implies a.ip != sp.address.ip by {
                    assert(init[j] == devices[j]);
                    lemma_picked(devices[j].addresses@);
                    assert(has_ip(rest, picked(init[j].addresses@)->0.ip));
                }
                assert(is_first_at(devices, n, sp.address.ip));
                assert(belongs_in_menu(devices[n]));
            }
        }
        assert forall|i: int|
            0 <= i < devices.len() && belongs_in_menu(#[trigger] devices[i]) implies has_ip(
            all,
            picked(devices[i].addresses@)->0.ip,
        ) by {
            let ip = picked(devices[i].addresses@)->0.ip;
            if i < n {
                assert(init[i] == devices[i]);
                assert(has_ip(rest, ip));
            }
            if has_ip(rest, ip) {
                let k = choose|k: int|
                    0 <= k < rest.len() && (#[trigger] rest[k]).address.ip == ip;
                assert(all[k] == rest[k]);
            } else {
                assert(all[all.len() - 1].address.ip == ip);
            }
        }
    }
}

/// The menu holds, of all devices at one address that belong in it, the first,
/// and nothing else; it has every such address, none twice, and is in the order
/// of the names.
pub proof fn law_menu_is_the_first_at_each_address(devices: Vec<Device>, r: Vec<Speaker>)
    requires
        call_ensures(scan_speakers, (&devices,), r),
    ensures
        forall|k: int| 0 <= k < r@.len() ==> is_first_of(devices@, #[trigger] r@[k]),
        forall|i: int, a: Address|
            0 <= i < devices@.len() && belongs_in_menu(devices@[i]) && #[trigger] is_pick(
                devices@[i].addresses@,
                a,
            ) ==> exists|k: int| 0 <= k < r@.len() && (#[trigger] r@[k]).address.ip == a.ip,
        forall|i: int, j: int|
            0 <= i < r@.len() && 0 <= j < r@.len() && i != j ==> (#[trigger] r@[i]).address.ip != (
            #[trigger] r@[j]).address.ip,
        forall|i: int, j: int, k: int|
            0 <= i < j < r@.len() ==> !#[trigger] differs_at(r@[j].name@, r@[i].name@, k),
{
    let found = scanned(devices@);
    lemma_scanned_firsts(devices@);
    law_menu_lists_each_player_once(devices@);
    assert forall|k: int| 0 <= k < r@.len() implies is_first_of(devices@, #[trigger] r@[k]) by {
        lemma_sorted_holds(found, r@[k]);
        assert(r@.contains(r@[k]));
        let m = found.index_of(r@[k]);
        assert(is_first_of(devices@, found[m]));
    }
    assert forall|i: int, a: Address|
        0 <= i < devices@.len() && belongs_in_menu(devices@[i]) && #[trigger] is_pick(
            devices@[i].addresses@,
            a,
        ) implies exists|k: int| 0 <= k < r@.len() && (#[trigger] r@[k]).address.ip == a.ip by {
        lemma_picked(devices@[i].addresses@);
        assert(belongs_in_menu(devices@[i]));
        assert(has_ip(found, a.ip));
        let m = choose|m: int| 0 <= m < found.len() && (#[trigger] found[m]).address.ip == a.ip;
        assert(found.contains(found[m]));
        lemma_sorted_holds(found, found[m]);
        let k = r@.index_of(found[m]);
        assert(r@[k].address.ip == a.ip);
    }
    assert forall|i: int, j: int, k: int| 0 <= i < j < r@.len() implies !#[trigger] differs_at(
        r@[j].name@,
        r@[i].name@,
        k,
    ) by {
        lemma_order_reads(r@[j].name@, r@[i].name@);
    }
}

proof fn lemma_sorted_holds(s: Seq<Speaker>, x: Speaker)
    ensures
        by_name(s).contains(x) <==> s.contains(x),
{
    broadcast use vstd::seq_lib::group_to_multiset_ensures;

    law_sorting_sorts(s, x.name@);
    assert(by_name(s).contains(x) <==> by_name(s).to_multiset().contains(x));
    assert(s.contains(x) <==> s.to_multiset().contains(x));
}

/// Sorting puts no later name ahead of an earlier one, keeps every speaker as
/// often as it was there, and keeps the order of those with one name.
pub proof fn law_sorting_by_name(s: Vec<Speaker>, r: Vec<Speaker>, name: Seq<char>)
    requires
        call_ensures(sort_by_name, (s,), r),
    ensures
        forall|i: int, j: int, k: int|
            0 <= i < j < r@.len() ==> !#[trigger] differs_at(r@[j].name@, r@[i].name@, k),
        r@.to_multiset() == s@.to_multiset(),
        r@.filter(|x: Speaker| x.name@ == name) == s@.filter(|x: Speaker| x.name@ == name),
{
    law_sorting_sorts(s@, name);
    lemma_named_is_filter(r@, name, |x: Speaker| x.name@ == name);
    lemma_named_is_filter(s@, name, |x: Speaker| x.name@ == name);
    assert forall|i: int, j: int, k: int| 0 <= i < j < r@.len() implies !#[trigger] differs_at(
        r@[j].name@,
        r@[i].name@,
        k,
    ) by {
        lemma_order_reads(r@[j].name@, r@[i].name@);
    }
}

proof fn lemma_named_is_filter(s: Seq<Speaker>, name: Seq<char>, keep: spec_fn(Speaker) -> bool)
    requires
        forall|x: Speaker| #[trigger] keep(x) == (x.name@ == name),
    ensures
        named(s, name) == s.filter(keep),
    decreases s.len(),
{
    reveal(Seq::filter);
    if s.len() > 0 {
        lemma_named_is_filter(s.drop_last(), name, keep);
    } else {
        assert(named(s, name) =~= s.filter(keep));
    }
}

/// A speaker's label is its name, with what it is where that is known.
pub proof fn law_label_tells_name_and_kind(s: Speaker, r: String)
    requires
        call_ensures(speaker_label, (&s,), r),
    ensures
        s.kind == DeviceKind::HomePod ==> r@ == s.name@ + "  (HomePod)"@,
        s.kind == DeviceKind::AppleTv ==> r@ == s.name@ + "  (Apple TV)"@,
        s.kind == DeviceKind::OtherAirPlay ==> r@ == s.name@,
{
}

/// The first of the lowered names in which the lowered fragment can be read.
pub proof fn law_first_name_that_fits(lowered: Vec<String>, needle: &str, r: Option<usize>)
    requires
        call_ensures(first_hit, (&lowered, needle), r),
    ensures
        match r {
            Some(i) => i < lowered@.len() && reads_in(lowered@[i as int]@, needle@) && forall|j: int|
                0 <= j < i ==> !reads_in(#[trigger] lowered@[j]@, needle@),
            None => forall|j: int|
                0 <= j < lowered@.len() ==> !reads_in(#[trigger] lowered@[j]@, needle@),
        },
{
    let hits = name_hits(lowered@, needle@);
    law_first_true_is_the_first(hits);
    assert forall|j: int| 0 <= j < lowered@.len() implies hits[j] == reads_in(
        #[trigger] lowered@[j]@,
        needle@,
    ) by {
        lemma_fragment_reads(lowered@[j]@, needle@);
    }
    match r {
        Some(i) => {
            assert(hits[i as int]);
            assert forall|j: int| 0 <= j < i implies !reads_in(#[trigger] lowered@[j]@, needle@) by {
                assert(!hits[j]);
            }
        },
        None => {
            assert forall|j: int| 0 <= j < lowered@.len() implies !reads_in(
                #[trigger] lowered@[j]@,
                needle@,
            ) by {
                assert(!hits[j]);
            }
        },
    }
}

/// The fragment can be read in the name, once both are in lower case.
pub open spec fn names(name: Seq<char>, fragment: Seq<char>) -> bool {
    reads_in(lowercase(name), lowercase(fragment))
}

/// The first speaker that a fragment names.
pub proof fn law_first_speaker_that_is_named(
    speakers: Vec<Speaker>,
    fragment: &str,
    r: Option<usize>,
)
    requires
        call_ensures(find_speaker, (&speakers, fragment), r),
    ensures
        match r {
            Some(i) => i < speakers@.len() && names(speakers@[i as int].name@, fragment@)
                && forall|j: int|
                0 <= j < i ==> !names((#[trigger] speakers@[j]).name@, fragment@),
            None => forall|j: int|
                0 <= j < speakers@.len() ==> !names((#[trigger] speakers@[j]).name@, fragment@),
        },
{
    lemma_speakers_named(speakers@, fragment@);
}

pub proof fn lemma_speakers_named(speakers: Seq<Speaker>, fragment: Seq<char>)
    ensures
        match first_true(speakers_meant(speakers, fragment)) {
            Some(i) => 0 <= i < speakers.len() && names(speakers[i].name@, fragment)
                && forall|j: int| 0 <= j < i ==> !names((#[trigger] speakers[j]).name@, fragment),
            None => forall|j: int|
                0 <= j < speakers.len() ==> !names((#[trigger] speakers[j]).name@, fragment),
        },
{
    let meant = speakers_meant(speakers, fragment);
    law_first_true_is_the_first(meant);
    assert forall|j: int| 0 <= j < speakers.len() implies meant[j] == names(
        (#[trigger] speakers[j]).name@,
        fragment,
    ) by {
        lemma_fragment_reads(lowercase(speakers[j].name@), lowercase(fragment));
    }
    match first_true(meant) {
        Some(i) => {
            assert(meant[i]);
            assert forall|j: int| 0 <= j < i implies !names(
                (#[trigger] speakers[j]).name@,
                fragment,
            ) by {
                assert(!meant[j]);
            }
        },
        None => {
            assert forall|j: int| 0 <= j < speakers.len() implies !names(
                (#[trigger] speakers[j]).name@,
                fragment,
            ) by {
                assert(!meant[j]);
            }
        },
    }
}

/// `r` is the `i`th device: at the address that is picked of its own, or without
/// one where it has none.
pub open spec fn resolves_to(devices: Seq<Device>, i: int, r: Resolution) -> bool {
    &&& 0 <= i < devices.len()
    &&& match r {
        Resolution::Found { name, address } => name == devices[i].name && is_pick(
            devices[i].addresses@,
            address,
        ),
        Resolution::NoAddress { name } => name == devices[i].name && devices[i].addresses@.len()
            == 0,
        Resolution::NoMatch => false,
    }
}

/// A lowered fragment resolves to the first device that can be streamed to and in
/// whose lowered name it can be read, at that device's first IPv4 address, or its
/// first address where it has none of those; and to nothing where there is no
/// such device.
pub proof fn law_fragment_finds_the_first_that_fits(
    devices: Vec<Device>,
    lowered: Vec<String>,
    needle: &str,
    r: Resolution,
)
    requires
        lowered@.len() == devices@.len(),
        call_ensures(resolve_lowered, (&devices, &lowered, needle), r),
    ensures
        if r is NoMatch {
            forall|j: int|
                0 <= j < devices@.len() ==> !(can_stream(#[trigger] devices@[j]) && reads_in(
                    lowered@[j]@,
                    needle@,
                ))
        } else {
            exists|i: int| #[trigger]
                resolves_to(devices@, i, r) && can_stream(devices@[i]) && reads_in(
                    lowered@[i]@,
                    needle@,
                ) && forall|j: int|
                    0 <= j < i ==> !(can_stream(#[trigger] devices@[j]) && reads_in(
                        lowered@[j]@,
                        needle@,
                    ))
        },
{
    let flags = Seq::new(
        devices@.len(),
        |i: int|
            is_eligible(devices@[i]) && crate::text::has_fragment(lowered@[i]@, needle@),
    );
    law_first_true_is_the_first(flags);
    assert forall|j: int| 0 <= j < devices@.len() implies flags[j] == (can_stream(
        #[trigger] devices@[j],
    ) && reads_in(lowered@[j]@, needle@)) by {
        lemma_eligible(devices@[j]);
        lemma_fragment_reads(lowered@[j]@, needle@);
    }
    match first_true(flags) {
        Some(i) => {
            lemma_picked(devices@[i].addresses@);
            assert(flags[i]);
            assert(resolves_to(devices@, i, r));
            assert forall|j: int| 0 <= j < i implies !(can_stream(#[trigger] devices@[j])
                && reads_in(lowered@[j]@, needle@)) by {
                assert(!flags[j]);
            }
        },
        None => {
            assert forall|j: int| 0 <= j < devices@.len() implies !(can_stream(
                #[trigger] devices@[j],
            ) && reads_in(lowered@[j]@, needle@)) by {
                assert(!flags[j]);
            }
        },
    }
}

/// What a user names is the first device that can be streamed to and whose name
/// holds the fragment, in any case, at its first IPv4 address where it has one.
pub proof fn law_named_device_is_found(devices: Vec<Device>, fragment: &str, r: Resolution)
    requires
        call_ensures(resolve_device, (&devices, fragment), r),
    ensures
        if r is NoMatch {
            forall|j: int|
                0 <= j < devices@.len() ==> !(can_stream(#[trigger] devices@[j]) && names(
                    devices@[j].name@,
                    fragment@,
                ))
        } else {
            exists|i: int| #[trigger]
                resolves_to(devices@, i, r) && can_stream(devices@[i]) && names(
                    devices@[i].name@,
                    fragment@,
                ) && forall|j: int|
                    0 <= j < i ==> !(can_stream(#[trigger] devices@[j]) && names(
                        devices@[j].name@,
                        fragment@,
                    ))
        },
{
    let flags = devices_meant(devices@, fragment@);
    law_first_true_is_the_first(flags);
    assert forall|j: int| 0 <= j < devices@.len() implies flags[j] == (can_stream(
        #[trigger] devices@[j],
    ) && names(devices@[j].name@, fragment@)) by {
        lemma_eligible(devices@[j]);
        lemma_fragment_reads(lowercase(devices@[j].name@), lowercase(fragment@));
    }
    match first_true(flags) {
        Some(i) => {
            lemma_picked(devices@[i].addresses@);
            assert(flags[i]);
            assert(resolves_to(devices@, i, r));
            assert forall|j: int| 0 <= j < i implies !(can_stream(#[trigger] devices@[j]) && names(
                devices@[j].name@,
                fragment@,
            )) by {
                assert(!flags[j]);
            }
        },
        None => {
            assert forall|j: int| 0 <= j < devices@.len() implies !(can_stream(
                #[trigger] devices@[j],
            ) && names(devices@[j].name@, fragment@)) by {
                assert(!flags[j]);
            }
        },
    }
}

/// The command line, the tray and the diagnosis speak of one device by one
/// address: what a name resolves to is what the same device is as a speaker.
pub proof fn law_one_device_has_one_address(
    devices: Vec<Device>,
    i: int,
    r: Resolution,
    sp: Option<Speaker>,
)
    requires
        resolves_to(devices@, i, r),
        call_ensures(as_speaker, (&devices@[i],), sp),
    ensures
        match r {
            Resolution::Found { name, address } => sp matches Some(s) && s.name == name && s.address
                == address,
            _ => sp is None,
        },
{
    lemma_picked(devices@[i].addresses@);
}

/// A copy is the same address, or the same speaker.
pub proof fn law_copies_are_the_same(a: Address, b: Address, s: Speaker, t: Speaker)
    requires
        call_ensures(Address::copy, (&a,), b),
        call_ensures(Speaker::copy, (&s,), t),
    ensures
        b.ip == a.ip,
        b.text == a.text,
        t.name == s.name,
        t.address == s.address,
        t.port == s.port,
        t.kind == s.kind,
{
}

} // verus!
