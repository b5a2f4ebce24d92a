//! The AirPlay devices on the network: which of them can be streamed to, at
//! which address, and which one a user means.

use crate::text::{before, chars_of, comes_before, contains, has_fragment, joined, lowercase, to_lower};
use vstd::prelude::*;

verus! {

/// The port that AirPlay receivers listen on.
pub const AIRPLAY_PORT: u16 = 7000;

/// An IP address.
#[derive(Debug, Clone, Copy, PartialEq, Eq, Structural)]
pub enum Ip {
    V4(u32),
    V6(u128),
}

/// An IP address and how it is written.
#[derive(Debug, Clone)]
pub struct Address {
    pub ip: Ip,
    pub text: String,
}

/// What a device is.
#[derive(Debug, Clone, Copy, PartialEq, Eq, Structural)]
pub enum DeviceKind {
    HomePod,
    AppleTv,
    OtherAirPlay,
}

/// A device as discovery found it.
#[derive(Debug)]
pub struct Device {
    pub name: String,
    pub addresses: Vec<Address>,
    pub supports_airplay2: bool,
    pub kind: DeviceKind,
}

/// A device that can be streamed to.
#[derive(Debug, Clone)]
pub struct Speaker {
    pub name: String,
    pub address: Address,
    pub port: u16,
    pub kind: DeviceKind,
}

impl Address {
    /// The same address.
    pub fn copy(&self) -> (r: Address)
        ensures
            r == *self,
    {
        Address { ip: self.ip, text: self.text.clone() }
    }
}

impl Speaker {
    /// The same speaker.
    pub fn copy(&self) -> (r: Speaker)
        ensures
            r == *self,
    {
        Speaker {
            name: self.name.clone(),
            address: self.address.copy(),
            port: self.port,
            kind: self.kind,
        }
    }
}

/// The first place that holds `true`.
pub open spec fn first_true(flags: Seq<bool>) -> Option<int>
    decreases flags.len(),
{
    if flags.len() == 0 {
        None
    } else {
        match first_true(flags.drop_last()) {
            Some(i) => Some(i),
            None => if flags.last() {
                Some(flags.len() - 1)
            } else {
                None
            },
        }
    }
}

/// `first_true` is what its name says: the place holds `true`, and none before
/// it does; and there is none exactly when nothing holds `true`.
pub proof fn law_first_true_is_the_first(flags: Seq<bool>)
    ensures
        match first_true(flags) {
            Some(i) => 0 <= i < flags.len() && flags[i] && forall|j: int| 0 <= j < i ==> !flags[j],
            None => forall|j: int| 0 <= j < flags.len() ==> !flags[j],
        },
    decreases flags.len(),
{
    if flags.len() > 0 {
        let init = flags.drop_last();
        law_first_true_is_the_first(init);
        match first_true(init) {
            Some(i) => {
                assert(init[i] == flags[i]);
                assert forall|j: int| 0 <= j < i implies !flags[j] by {
                    assert(!init[j]);
                }
            },
            None => {
                assert forall|j: int| 0 <= j < init.len() implies !flags[j] by {
                    assert(!init[j]);
                }
            },
        }
    }
}

/// Flags that are `false` up to `i` and `true` there.
proof fn lemma_first_true_at(flags: Seq<bool>, i: int)
    requires
        0 <= i < flags.len(),
        flags[i],
        forall|j: int| 0 <= j < i ==> !flags[j],
    ensures
        first_true(flags) == Some(i),
{
    law_first_true_is_the_first(flags);
}

/// Flags that are all `false`.
proof fn lemma_first_true_none(flags: Seq<bool>)
    requires
        forall|j: int| 0 <= j < flags.len() ==> !flags[j],
    ensures
        first_true(flags) is None,
{
    law_first_true_is_the_first(flags);
}

/// Which addresses are IPv4.
pub open spec fn v4_flags(addresses: Seq<Address>) -> Seq<bool> {
    addresses.map_values(|a: Address| a.ip is V4)
}

/// The address to use: the first IPv4 one, since link-local IPv6 confuses both
/// users and connection attempts; failing that, the first of all.
pub open spec fn picked(addresses: Seq<Address>) -> Option<Address> {
    match first_true(v4_flags(addresses)) {
        Some(i) => Some(addresses[i]),
        None => if addresses.len() > 0 {
            Some(addresses[0])
        } else {
            None
        },
    }
}

/// The address to use.
pub fn pick_address(addresses: &Vec<Address>) -> (r: Option<Address>)
    ensures
        r == picked(addresses@),
{
    let mut i: usize = 0;
    while i < addresses.len()
        invariant
            i <= addresses.len(),
            forall|j: int| 0 <= j < i ==> !v4_flags(addresses@)[j],
        decreases addresses.len() - i,
    {
        if let Ip::V4(_) = addresses[i].ip {
            proof {
                lemma_first_true_at(v4_flags(addresses@), i as int);
            }
            return Some(addresses[i].copy());
        }
        i = i + 1;
    }
    proof {
        lemma_first_true_none(v4_flags(addresses@));
    }
    if addresses.len() > 0 {
        Some(addresses[0].copy())
    } else {
        None
    }
}

/// An address is picked exactly when there is one; it is one of the device's
/// own; and it is IPv4 whenever the device has such an address.
pub proof fn law_picked_prefers_v4(addresses: Seq<Address>)
    ensures
        picked(addresses) is Some <==> addresses.len() > 0,
        picked(addresses) matches Some(a) ==> addresses.contains(a),
        forall|i: int|
            0 <= i < addresses.len() && (#[trigger] addresses[i]).ip is V4 ==> picked(addresses)->0.ip is V4,
{
    law_first_true_is_the_first(v4_flags(addresses));
    if addresses.len() > 0 {
        assert(addresses.contains(addresses[0]));
    }
    assert forall|i: int|
        0 <= i < addresses.len() && (#[trigger] addresses[i]).ip is V4 implies picked(
        addresses,
    )->0.ip is V4 by {
        assert(v4_flags(addresses)[i]);
    }
}

/// The device speaks AirPlay 2, and its entry is not one of those that repeat a
/// device under "MAC@Name".
pub open spec fn is_eligible(d: Device) -> bool {
    d.supports_airplay2 && !d.name@.contains('@')
}

/// Whether the device can be considered at all.
pub fn eligible(d: &Device) -> (r: bool)
    ensures
        r == is_eligible(*d),
{
    d.supports_airplay2 && !has_char(d.name.as_str(), '@')
}

/// Whether the text holds the character.
fn has_char(s: &str, c: char) -> (r: bool)
    ensures
        r == s@.contains(c),
{
    let chars: Vec<char> = chars_of(s);
    let mut i: usize = 0;
    while i < chars.len()
        invariant
            i <= chars.len(),
            chars@ == s@,
            forall|j: int| 0 <= j < i ==> chars@[j] != c,
        decreases chars.len() - i,
    {
        if chars[i] == c {
            return true;
        }
        i = i + 1;
    }
    false
}

/// The device as a speaker, where it has an address.
pub open spec fn speaker_of(d: Device) -> Option<Speaker> {
    match picked(d.addresses@) {
        Some(address) => Some(
            Speaker { name: d.name, address, port: AIRPLAY_PORT, kind: d.kind },
        ),
        None => None,
    }
}

/// The device as a speaker, where it has an address.
pub fn as_speaker(d: &Device) -> (r: Option<Speaker>)
    ensures
        r == speaker_of(*d),
{
    match pick_address(&d.addresses) {
        Some(address) => Some(
            Speaker { name: d.name.clone(), address, port: AIRPLAY_PORT, kind: d.kind },
        ),
        None => None,
    }
}

/// The eligible devices that have an address, as speakers, in the order found.
pub open spec fn reachable(devices: Seq<Device>) -> Seq<Speaker>
    decreases devices.len(),
{
    if devices.len() == 0 {
        Seq::empty()
    } else {
        let rest = reachable(devices.drop_last());
        match speaker_of(devices.last()) {
            Some(sp) if is_eligible(devices.last()) => rest.push(sp),
            _ => rest,
        }
    }
}

/// The eligible devices that have an address, as speakers, in the order found.
pub fn reachable_speakers(devices: &Vec<Device>) -> (r: Vec<Speaker>)
    ensures
        r@ == reachable(devices@),
{
    let mut out: Vec<Speaker> = Vec::new();
    let mut i: usize = 0;
    while i < devices.len()
        invariant
            i <= devices.len(),
            out@ == reachable(devices@.take(i as int)),
        decreases devices.len() - i,
    {
        assert(devices@.take(i + 1).drop_last() =~= devices@.take(i as int));
        if eligible(&devices[i]) {
            if let Some(sp) = as_speaker(&devices[i]) {
                out.push(sp);
            }
        }
        i = i + 1;
    }
    assert(devices@.take(devices.len() as int) =~= devices@);
    out
}

/// A device that plays audio for its own sake, as other computers that
/// advertise an AirPlay receiver do not.
pub open spec fn is_player(kind: DeviceKind) -> bool {
    kind == DeviceKind::HomePod || kind == DeviceKind::AppleTv
}

/// One of the speakers has this address.
pub open spec fn has_ip(speakers: Seq<Speaker>, ip: Ip) -> bool {
    exists|i: int| 0 <= i < speakers.len() && (#[trigger] speakers[i]).address.ip == ip
}

/// The device belongs in the menu.
pub open spec fn is_listed(d: Device) -> bool {
    is_eligible(d) && is_player(d.kind) && speaker_of(d) is Some
}

/// The menu's speakers in the order found: of those that share an address, the
/// first.
pub open spec fn scanned(devices: Seq<Device>) -> Seq<Speaker>
    decreases devices.len(),
{
    if devices.len() == 0 {
        Seq::empty()
    } else {
        let rest = scanned(devices.drop_last());
        let d = devices.last();
        if is_listed(d) && !has_ip(rest, speaker_of(d)->0.address.ip) {
            rest.push(speaker_of(d)->0)
        } else {
            rest
        }
    }
}

/// `x` put in its place among speakers sorted by name, after those of the same
/// name.
pub open spec fn inserted(s: Seq<Speaker>, x: Speaker) -> Seq<Speaker>
    decreases s.len(),
{
    if s.len() == 0 || !before(x.name@, s.last().name@) {
        s.push(x)
    } else {
        inserted(s.drop_last(), x).push(s.last())
    }
}

/// The speakers by name; those of the same name keep their order.
pub open spec fn by_name(s: Seq<Speaker>) -> Seq<Speaker>
    decreases s.len(),
{
    if s.len() == 0 {
        Seq::empty()
    } else {
        inserted(by_name(s.drop_last()), s.last())
    }
}

/// Whether one of the speakers has this address.
fn knows_ip(speakers: &Vec<Speaker>, ip: Ip) -> (r: bool)
    ensures
        r == has_ip(speakers@, ip),
{
    let mut i: usize = 0;
    while i < speakers.len()
        invariant
            i <= speakers.len(),
            forall|j: int| 0 <= j < i ==> (#[trigger] speakers@[j]).address.ip != ip,
        decreases speakers.len() - i,
    {
        if speakers[i].address.ip == ip {
            return true;
        }
        i = i + 1;
    }
    false
}

fn insert_by_name(out: &mut Vec<Speaker>, x: Speaker)
    ensures
        final(out)@ == inserted(old(out)@, x),
{
    let ghost s = out@;
    let mut i: usize = out.len();
    assert(s.take(i as int) =~= s);
    assert(inserted(s, x) =~= inserted(s.take(i as int), x) + s.skip(i as int));
    while i > 0 && comes_before(x.name.as_str(), out[i - 1].name.as_str())
        invariant
            i <= out.len(),
            out@ == s,
            inserted(s, x) == inserted(s.take(i as int), x) + s.skip(i as int),
        decreases i,
    {
        proof {
            let head = s.take(i as int);
            assert(head.last() == s[i - 1]);
            assert(head.drop_last() =~= s.take(i - 1));
            assert(inserted(head, x) == inserted(s.take(i - 1), x).push(s[i - 1]));
            assert(inserted(s, x) =~= inserted(s.take(i - 1), x) + s.skip(i - 1));
        }
        i = i - 1;
    }
    proof {
        if i > 0 {
            assert(s.take(i as int).last() == s[i - 1]);
        }
        assert(inserted(s.take(i as int), x) == s.take(i as int).push(x));
    }
    out.insert(i, x);
    assert(out@ =~= inserted(s, x));
}

/// The speakers by name; those of the same name keep their order.
pub fn sort_by_name(speakers: Vec<Speaker>) -> (r: Vec<Speaker>)
    ensures
        r@ == by_name(speakers@),
{
    let mut out: Vec<Speaker> = Vec::new();
    let mut i: usize = 0;
    while i < speakers.len()
        invariant
            i <= speakers.len(),
            out@ == by_name(speakers@.take(i as int)),
        decreases speakers.len() - i,
    {
        assert(speakers@.take(i + 1).drop_last() =~= speakers@.take(i as int));
        insert_by_name(&mut out, speakers[i].copy());
        i = i + 1;
    }
    assert(speakers@.take(speakers.len() as int) =~= speakers@);
    out
}

/// The speakers of the menu: every HomePod and Apple TV once, by name.
pub fn scan_speakers(devices: &Vec<Device>) -> (r: Vec<Speaker>)
    ensures
        r@ == by_name(scanned(devices@)),
{
    let mut out: Vec<Speaker> = Vec::new();
    let mut i: usize = 0;
    while i < devices.len()
        invariant
            i <= devices.len(),
            out@ == scanned(devices@.take(i as int)),
        decreases devices.len() - i,
    {
        assert(devices@.take(i + 1).drop_last() =~= devices@.take(i as int));
        let d: &Device = &devices[i];
        let player: bool = d.kind == DeviceKind::HomePod || d.kind == DeviceKind::AppleTv;
        if eligible(d) && player {
            if let Some(sp) = as_speaker(d) {
                if !knows_ip(&out, sp.address.ip) {
                    out.push(sp);
                }
            }
        }
        i = i + 1;
    }
    assert(devices@.take(devices.len() as int) =~= devices@);
    sort_by_name(out)
}

/// The menu's label of a speaker.
pub open spec fn label(s: Speaker) -> Seq<char> {
    match s.kind {
        DeviceKind::HomePod => s.name@ + "  (HomePod)"@,
        DeviceKind::AppleTv => s.name@ + "  (Apple TV)"@,
        DeviceKind::OtherAirPlay => s.name@,
    }
}

/// The menu's label of a speaker.
pub fn speaker_label(s: &Speaker) -> (r: String)
    ensures
        r@ == label(*s),
{
    match s.kind {
        DeviceKind::HomePod => joined(s.name.as_str(), "  (HomePod)"),
        DeviceKind::AppleTv => joined(s.name.as_str(), "  (Apple TV)"),
        DeviceKind::OtherAirPlay => s.name.clone(),
    }
}

/// Which of the lowered names hold the lowered fragment.
pub open spec fn name_hits(lowered: Seq<String>, needle: Seq<char>) -> Seq<bool> {
    lowered.map_values(|n: String| has_fragment(n@, needle))
}

/// The first of the lowered names that holds the lowered fragment.
pub fn first_hit(lowered: &Vec<String>, needle: &str) -> (r: Option<usize>)
    ensures
        match first_true(name_hits(lowered@, needle@)) {
            Some(i) => r == Some(i as usize) && i < lowered.len(),
            None => r is None,
        },
{
    let mut i: usize = 0;
    while i < lowered.len()
        invariant
            i <= lowered.len(),
            forall|j: int| 0 <= j < i ==> !name_hits(lowered@, needle@)[j],
        decreases lowered.len() - i,
    {
        if contains(lowered[i].as_str(), needle) {
            proof {
                lemma_first_true_at(name_hits(lowered@, needle@), i as int);
            }
            return Some(i);
        }
        i = i + 1;
    }
    proof {
        lemma_first_true_none(name_hits(lowered@, needle@));
    }
    None
}

/// A name is meant by a fragment, whatever the case of either.
pub open spec fn is_meant(name: Seq<char>, fragment: Seq<char>) -> bool {
    has_fragment(lowercase(name), lowercase(fragment))
}

/// Which speakers are meant by the fragment.
pub open spec fn speakers_meant(speakers: Seq<Speaker>, fragment: Seq<char>) -> Seq<bool> {
    speakers.map_values(|s: Speaker| is_meant(s.name@, fragment))
}

/// The first speaker that is meant by the fragment.
pub fn find_speaker(speakers: &Vec<Speaker>, fragment: &str) -> (r: Option<usize>)
    ensures
        match first_true(speakers_meant(speakers@, fragment@)) {
            Some(i) => r == Some(i as usize) && i < speakers.len(),
            None => r is None,
        },
{
    let mut lowered: Vec<String> = Vec::new();
    let mut i: usize = 0;
    while i < speakers.len()
        invariant
            i <= speakers.len(),
            lowered.len() == i,
            forall|j: int| 0 <= j < i ==> (#[trigger] lowered@[j])@ == lowercase(speakers@[j].name@),
        decreases speakers.len() - i,
    {
        lowered.push(to_lower(speakers[i].name.as_str()));
        i = i + 1;
    }
    let needle: String = to_lower(fragment);
    assert(name_hits(lowered@, needle@) =~= speakers_meant(speakers@, fragment@));
    first_hit(&lowered, needle.as_str())
}

/// Which devices a fragment picks out: the eligible ones whose name holds it.
pub open spec fn devices_meant(devices: Seq<Device>, fragment: Seq<char>) -> Seq<bool> {
    devices.map_values(|d: Device| is_eligible(d) && is_meant(d.name@, fragment))
}

/// The device that a user named.
#[derive(Debug)]
pub enum Resolution {
    Found { name: String, address: Address },
    /// The device is there, without an address.
    NoAddress { name: String },
    NoMatch,
}

/// The device of a place in the list, if there is one.
pub open spec fn resolution_at(devices: Seq<Device>, at: Option<int>) -> Resolution {
    match at {
        Some(i) => match picked(devices[i].addresses@) {
            Some(address) => Resolution::Found { name: devices[i].name, address },
            None => Resolution::NoAddress { name: devices[i].name },
        },
        None => Resolution::NoMatch,
    }
}

/// The first eligible device whose lowered name holds the lowered fragment.
pub fn resolve_lowered(devices: &Vec<Device>, lowered: &Vec<String>, needle: &str) -> (r: Resolution)
    requires
        lowered.len() == devices.len(),
    ensures
        r == resolution_at(
            devices@,
            first_true(
                Seq::new(
                    devices.len() as nat,
                    |i: int| is_eligible(devices@[i]) && has_fragment(lowered@[i]@, needle@),
                ),
            ),
        ),
{
    let ghost flags = Seq::new(
        devices.len() as nat,
        |i: int| is_eligible(devices@[i]) && has_fragment(lowered@[i]@, needle@),
    );
    let mut i: usize = 0;
    while i < devices.len()
        invariant
            i <= devices.len(),
            lowered.len() == devices.len(),
            flags == Seq::new(
                devices.len() as nat,
                |i: int| is_eligible(devices@[i]) && has_fragment(lowered@[i]@, needle@),
            ),
            forall|j: int| 0 <= j < i ==> !flags[j],
        decreases devices.len() - i,
    {
        if eligible(&devices[i]) && contains(lowered[i].as_str(), needle) {
            proof {
                lemma_first_true_at(flags, i as int);
            }
            return match pick_address(&devices[i].addresses) {
                Some(address) => Resolution::Found { name: devices[i].name.clone(), address },
                None => Resolution::NoAddress { name: devices[i].name.clone() },
            };
        }
        i = i + 1;
    }
    proof {
        lemma_first_true_none(flags);
    }
    Resolution::NoMatch
}

/// The device that a user named by a fragment of its name, in any case.
pub fn resolve_device(devices: &Vec<Device>, fragment: &str) -> (r: Resolution)
    ensures
        r == resolution_at(devices@, first_true(devices_meant(devices@, fragment@))),
{
    let mut lowered: Vec<String> = Vec::new();
    let mut i: usize = 0;
    while i < devices.len()
        invariant
            i <= devices.len(),
            lowered.len() == i,
            forall|j: int| 0 <= j < i ==> (#[trigger] lowered@[j])@ == lowercase(devices@[j].name@),
        decreases devices.len() - i,
    {
        lowered.push(to_lower(devices[i].name.as_str()));
        i = i + 1;
    }
    let needle: String = to_lower(fragment);
    assert(devices_meant(devices@, fragment@) =~= Seq::new(
        devices.len() as nat,
        |i: int| is_eligible(devices@[i]) && has_fragment(lowered@[i]@, needle@),
    ));
    resolve_lowered(devices, &lowered, needle.as_str())
}

/// A user's fragment and a device's name are held against each other without
/// regard to case: what lowers to the same text means the same devices.
pub proof fn law_case_does_not_matter(devices: Seq<Device>, a: Seq<char>, b: Seq<char>)
    requires
        lowercase(a) == lowercase(b),
    ensures
        devices_meant(devices, a) == devices_meant(devices, b),
{
    assert(devices_meant(devices, a) =~= devices_meant(devices, b));
}

/// Speakers in the order of their names.
pub open spec fn is_sorted(s: Seq<Speaker>) -> bool {
    forall|i: int, j: int|
        0 <= i < j < s.len() ==> !before((#[trigger] s[j]).name@, (#[trigger] s[i]).name@)
}

/// The speakers of one name, in their order.
pub open spec fn named(s: Seq<Speaker>, name: Seq<char>) -> Seq<Speaker>
    decreases s.len(),
{
    if s.len() == 0 {
        Seq::empty()
    } else if s.last().name@ == name {
        named(s.drop_last(), name).push(s.last())
    } else {
        named(s.drop_last(), name)
    }
}

proof fn lemma_inserted_sorted(s: Seq<Speaker>, x: Speaker)
    requires
        is_sorted(s),
    ensures
        is_sorted(inserted(s, x)),
        inserted(s, x).to_multiset() == s.to_multiset().insert(x),
        inserted(s, x).len() == s.len() + 1,
    decreases s.len(),
{
    broadcast use vstd::seq_lib::group_to_multiset_ensures;

    if s.len() == 0 || !before(x.name@, s.last().name@) {
        let r = s.push(x);
        assert forall|i: int, j: int| 0 <= i < j < r.len() implies !before(
            (#[trigger] r[j]).name@,
            (#[trigger] r[i]).name@,
        ) by {
            if j == s.len() {
                crate::text::law_order_is_total(x.name@, s[i].name@, s.last().name@);
                crate::text::law_order_is_total(s.last().name@, s[i].name@, x.name@);
                if i < s.len() - 1 {
                    assert(!before(s[s.len() - 1].name@, s[i].name@));
                }
                if before(x.name@, s[i].name@) && s.last().name@ == s[i].name@ {
                    assert(before(x.name@, s.last().name@));
                }
            }
        }
    } else {
        let init = s.drop_last();
        let last = s.last();
        lemma_inserted_sorted(init, x);
        let head = inserted(init, x);
        let r = head.push(last);
        assert(init.push(last) =~= s);
        assert(s.to_multiset() =~= init.to_multiset().insert(last));
        assert(r.to_multiset() =~= s.to_multiset().insert(x));
        assert forall|i: int, j: int| 0 <= i < j < r.len() implies !before(
            (#[trigger] r[j]).name@,
            (#[trigger] r[i]).name@,
        ) by {
            if j == head.len() {
                assert(head.contains(head[i]));
                assert(head.to_multiset().contains(head[i]));
                if head[i] == x {
                    crate::text::law_order_is_total(x.name@, last.name@, x.name@);
                } else {
                    assert(init.to_multiset().contains(head[i]));
                    assert(init.contains(head[i]));
                    let k = init.index_of(head[i]);
                    assert(s[k] == head[i]);
                    assert(s[s.len() - 1] == last);
                }
            }
        }
    }
}

proof fn lemma_named_push(s: Seq<Speaker>, x: Speaker, name: Seq<char>)
    ensures
        named(s.push(x), name) == (if x.name@ == name {
            named(s, name).push(x)
        } else {
            named(s, name)
        }),
{
    assert(s.push(x).drop_last() =~= s);
}

proof fn lemma_inserted_named(s: Seq<Speaker>, x: Speaker, name: Seq<char>)
    requires
        is_sorted(s),
    ensures
        named(inserted(s, x), name) == named(s.push(x), name),
    decreases s.len(),
{
    lemma_named_push(s, x, name);
    if !(s.len() == 0 || !before(x.name@, s.last().name@)) {
        let init = s.drop_last();
        let last = s.last();
        lemma_inserted_named(init, x, name);
        lemma_named_push(init, x, name);
        lemma_named_push(inserted(init, x), last, name);
        crate::text::law_order_is_total(x.name@, last.name@, x.name@);
    }
}

proof fn lemma_sorted(s: Seq<Speaker>)
    ensures
        is_sorted(by_name(s)),
        by_name(s).to_multiset() == s.to_multiset(),
        by_name(s).len() == s.len(),
        forall|name: Seq<char>| #[trigger] named(by_name(s), name) == named(s, name),
    decreases s.len(),
{
    broadcast use vstd::seq_lib::group_to_multiset_ensures;

    if s.len() > 0 {
        let init = s.drop_last();
        lemma_sorted(init);
        lemma_inserted_sorted(by_name(init), s.last());
        assert(init.push(s.last()) =~= s);
        assert forall|name: Seq<char>| #[trigger] named(by_name(s), name) == named(s, name) by {
            lemma_inserted_named(by_name(init), s.last(), name);
            lemma_named_push(by_name(init), s.last(), name);
            lemma_named_push(init, s.last(), name);
            assert(named(by_name(init), name) == named(init, name));
        }
    }
}

/// Sorting by name sorts: the result is in order, holds exactly the same
/// speakers, and leaves those of one name in the order they were in.
pub proof fn law_sorting_sorts(s: Seq<Speaker>, name: Seq<char>)
    ensures
        is_sorted(by_name(s)),
        by_name(s).to_multiset() == s.to_multiset(),
        named(by_name(s), name) == named(s, name),
{
    lemma_sorted(s);
}

proof fn lemma_sorting_keeps(s: Seq<Speaker>, x: Speaker)
    ensures
        by_name(s).contains(x) <==> s.contains(x),
{
    broadcast use vstd::seq_lib::group_to_multiset_ensures;

    lemma_sorted(s);
    assert(by_name(s).contains(x) <==> by_name(s).to_multiset().contains(x));
    assert(s.contains(x) <==> s.to_multiset().contains(x));
}

proof fn lemma_scanned(devices: Seq<Device>)
    ensures
        forall|sp: Speaker| #[trigger]
            scanned(devices).contains(sp) ==> exists|i: int|
                0 <= i < devices.len() && is_listed(#[trigger] devices[i]) && speaker_of(devices[i])
                    == Some(sp),
        forall|i: int|
            0 <= i < devices.len() && is_listed(#[trigger] devices[i]) ==> has_ip(
                scanned(devices),
                speaker_of(devices[i])->0.address.ip,
            ),
        forall|i: int, j: int|
            0 <= i < j < scanned(devices).len() ==> (#[trigger] scanned(devices)[i]).address.ip != (
            #[trigger] scanned(devices)[j]).address.ip,
    decreases devices.len(),
{
    if devices.len() > 0 {
        let init = devices.drop_last();
        lemma_scanned(init);
        let rest = scanned(init);
        let all = scanned(devices);
        assert forall|sp: Speaker| #[trigger] all.contains(sp) implies exists|i: int|
            0 <= i < devices.len() && is_listed(#[trigger] devices[i]) && speaker_of(devices[i])
                == Some(sp) by {
            if rest.contains(sp) {
                let i = choose|i: int|
                    0 <= i < init.len() && is_listed(#[trigger] init[i]) && speaker_of(init[i])
                        == Some(sp);
                assert(devices[i] == init[i]);
            } else {
                let k = all.index_of(sp);
                assert(k == rest.len()) by {
                    if k < rest.len() {
                        assert(rest[k] == sp);
                    }
                }
                assert(is_listed(devices[devices.len() - 1]));
            }
        }
        assert forall|i: int| 0 <= i < devices.len() && is_listed(#[trigger] devices[i]) implies has_ip(
            all,
            speaker_of(devices[i])->0.address.ip,
        ) by {
            let ip = speaker_of(devices[i])->0.address.ip;
            if i < init.len() {
                assert(init[i] == devices[i]);
                assert(has_ip(rest, ip));
            }
            if has_ip(rest, ip) {
                let k = choose|k: int|
                    0 <= k < rest.len() && (#[trigger] rest[k]).address.ip == ip;
                assert(all[k] == rest[k]);
            } else {
                assert(all[all.len() - 1].address.ip == ip);
            }
        }
    }
}

/// The menu lists HomePods and Apple TVs only, each under its own name; it has
/// every such device's address; and no address is there twice.
pub proof fn law_menu_lists_each_player_once(devices: Seq<Device>)
    ensures
        ({
            let menu = by_name(scanned(devices));
            &&& forall|k: int|
                0 <= k < menu.len() ==> is_player((#[trigger] menu[k]).kind) && exists|i: int|
                    0 <= i < devices.len() && is_listed(#[trigger] devices[i]) && speaker_of(
                        devices[i],
                    ) == Some(menu[k])
            &&& forall|i: int|
                0 <= i < devices.len() && is_listed(#[trigger] devices[i]) ==> has_ip(
                    menu,
                    speaker_of(devices[i])->0.address.ip,
                )
            &&& forall|i: int, j: int|
                0 <= i < menu.len() && 0 <= j < menu.len() && i != j ==> (
                #[trigger] menu[i]).address.ip != (#[trigger] menu[j]).address.ip
            &&& is_sorted(menu)
        }),
{
    let found = scanned(devices);
    let menu = by_name(found);
    lemma_scanned(devices);
    lemma_sorted(found);
    assert forall|k: int| 0 <= k < menu.len() implies is_player((#[trigger] menu[k]).kind)
        && exists|i: int|
        0 <= i < devices.len() && is_listed(#[trigger] devices[i]) && speaker_of(devices[i])
            == Some(menu[k]) by {
        assert(menu.contains(menu[k]));
        lemma_sorting_keeps(found, menu[k]);
        assert(found.contains(menu[k]));
    }
    assert forall|i: int| 0 <= i < devices.len() && is_listed(#[trigger] devices[i]) implies has_ip(
        menu,
        speaker_of(devices[i])->0.address.ip,
    ) by {
        let ip = speaker_of(devices[i])->0.address.ip;
        assert(has_ip(found, ip));
        let k = choose|k: int| 0 <= k < found.len() && (#[trigger] found[k]).address.ip == ip;
        assert(found.contains(found[k]));
        lemma_sorting_keeps(found, found[k]);
        let m = menu.index_of(found[k]);
        assert(menu[m].address.ip == ip);
    }
    lemma_sorting_keeps_distinct(found);
}

proof fn lemma_sorting_keeps_distinct(s: Seq<Speaker>)
    requires
        forall|i: int, j: int|
            0 <= i < j < s.len() ==> (#[trigger] s[i]).address.ip != (#[trigger] s[j]).address.ip,
    ensures
        forall|i: int, j: int|
            0 <= i < by_name(s).len() && 0 <= j < by_name(s).len() && i != j ==> (
            #[trigger] by_name(s)[i]).address.ip != (#[trigger] by_name(s)[j]).address.ip,
{
    broadcast use vstd::seq_lib::group_to_multiset_ensures;

    lemma_sorted(s);
    let t = by_name(s);
    assert(s.no_duplicates());
    s.lemma_multiset_has_no_duplicates();
    assert forall|x: Speaker| t.to_multiset().contains(x) implies t.to_multiset().count(x) == 1 by {
        assert(s.to_multiset().contains(x));
    }
    t.lemma_multiset_has_no_duplicates_conv();
    assert forall|i: int, j: int|
        0 <= i < t.len() && 0 <= j < t.len() && i != j implies (#[trigger] t[i]).address.ip != (
    #[trigger] t[j]).address.ip by {
        assert(t.contains(t[i]) && t.contains(t[j]));
        lemma_sorting_keeps(s, t[i]);
        lemma_sorting_keeps(s, t[j]);
        let a = s.index_of(t[i]);
        let b = s.index_of(t[j]);
        assert(s[a] == t[i] && s[b] == t[j]);
        assert(a != b);
    }
}

} // verus!
