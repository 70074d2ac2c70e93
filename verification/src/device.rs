//! How a device URI is opened: the registry of printers, the order in which their
//! transports are tried, and the cache of connections.
//!
//! A Bluetooth printer beeps on every connect, so its connection is kept and used
//! again as long as it answers.

use vstd::prelude::*;
use vstd::string::StrSliceExecFns;

use crate::directory::Directory;
use crate::text::{join2, starts_with, strip_prefix};

verus! {

/// How to treat a device URI.
#[derive(Debug, Clone, Copy, PartialEq, Eq, Structural)]
pub enum Scheme {
    /// A registered printer.
    Supvan,
    /// The simulator.
    Mock,
    /// Neither: there is no such device.
    Unsupported,
}

/// How to treat a device URI, by its scheme.
pub fn open_uri(uri: &str) -> (s: Scheme)
    ensures
        s == if "supvan://"@.is_prefix_of(uri@) {
            Scheme::Supvan
        } else if "mock://"@.is_prefix_of(uri@) {
            Scheme::Mock
        } else {
            Scheme::Unsupported
        },
{
    if starts_with(uri, "supvan://") {
        Scheme::Supvan
    } else if starts_with(uri, "mock://") {
        Scheme::Mock
    } else {
        Scheme::Unsupported
    }
}

/// A device without a connection.
#[derive(Debug, Clone, Copy, PartialEq, Eq, Structural)]
pub struct MockDevice;

/// Open the simulator, whatever its URI. It always succeeds.
pub fn open_mock(_uri: &str) -> (d: Option<MockDevice>)
    ensures
        d is Some,
{
    Some(MockDevice)
}

/// Whether the simulated hardware can be reached: asked before the simulator is
/// used, so that a simulated outage looks like one.
pub fn mock_reachable(unreachable: bool) -> (b: bool)
    ensures
        b == !unreachable,
{
    !unreachable
}

/// How a registered printer can be reached.
#[derive(Debug, PartialEq, Eq)]
pub struct SupvanTransports {
    /// Its hidraw device.
    pub hidraw_path: Option<String>,
    /// Its Bluetooth address.
    pub bt_address: Option<String>,
    /// Its Bluetooth Low Energy address.
    pub ble_address: Option<String>,
}

/// Record how the printer with this slug can be reached, in place of what was
/// recorded before.
pub fn register_supvan(
    map: &mut Directory<SupvanTransports>,
    slug: &str,
    hidraw_path: Option<String>,
    bt_address: Option<String>,
    ble_address: Option<String>,
)
    ensures
        final(map)@ == old(map)@.insert(
            slug@,
            (SupvanTransports { hidraw_path, bt_address, ble_address }),
        ),
{
    map.insert(slug.to_owned(), SupvanTransports { hidraw_path, bt_address, ble_address });
}

/// One way to open a printer.
#[derive(Debug, PartialEq, Eq)]
pub enum Attempt {
    /// This hidraw device.
    Usb(String),
    /// This Bluetooth URI.
    Bt(String),
    /// This Bluetooth Low Energy address.
    Ble(String),
}

/// One way to open a printer, with its text.
pub enum AttemptModel {
    /// See [`Attempt::Usb`].
    Usb(Seq<char>),
    /// See [`Attempt::Bt`].
    Bt(Seq<char>),
    /// See [`Attempt::Ble`].
    Ble(Seq<char>),
}

impl View for Attempt {
    type V = AttemptModel;

    open spec fn view(&self) -> AttemptModel {
        match self {
            Attempt::Usb(s) => AttemptModel::Usb(s@),
            Attempt::Bt(s) => AttemptModel::Bt(s@),
            Attempt::Ble(s) => AttemptModel::Ble(s@),
        }
    }
}

/// The USB attempt, if there is one.
pub open spec fn usb_attempts(t: SupvanTransports) -> Seq<AttemptModel> {
    match t.hidraw_path {
        Some(path) => seq![AttemptModel::Usb(path@)],
        None => Seq::empty(),
    }
}

/// The Bluetooth attempt, if there is one.
pub open spec fn bt_attempts(t: SupvanTransports) -> Seq<AttemptModel> {
    match t.bt_address {
        Some(addr) => seq![AttemptModel::Bt("btrfcomm://bt/"@ + addr@)],
        None => Seq::empty(),
    }
}

/// The Bluetooth Low Energy attempt, if there is one.
pub open spec fn ble_attempts(t: SupvanTransports) -> Seq<AttemptModel> {
    match t.ble_address {
        Some(addr) => seq![AttemptModel::Ble(addr@)],
        None => Seq::empty(),
    }
}

/// The ways to open a printer, in the order in which they are tried.
pub open spec fn attempts_for(t: SupvanTransports) -> Seq<AttemptModel> {
    usb_attempts(t) + bt_attempts(t) + ble_attempts(t)
}

/// The texts of some attempts.
pub open spec fn attempt_models(attempts: Seq<Attempt>) -> Seq<AttemptModel> {
    Seq::new(attempts.len(), |i: int| attempts[i]@)
}

/// The ways to open a printer, in the order in which they are to be tried: the
/// first that opens is the device.
pub fn transport_attempts(t: &SupvanTransports) -> (attempts: Vec<Attempt>)
    ensures
        attempt_models(attempts@) == attempts_for(*t),
{
    let mut attempts: Vec<Attempt> = Vec::new();
    if let Some(path) = &t.hidraw_path {
        attempts.push(Attempt::Usb(path.clone()));
    }
    assert(attempt_models(attempts@) =~= usb_attempts(*t));
    if let Some(addr) = &t.bt_address {
        attempts.push(Attempt::Bt(join2("btrfcomm://bt/", addr.as_str())));
    }
    assert(attempt_models(attempts@) =~= usb_attempts(*t) + bt_attempts(*t));
    if let Some(addr) = &t.ble_address {
        attempts.push(Attempt::Ble(addr.clone()));
    }
    assert(attempt_models(attempts@) =~= attempts_for(*t));
    attempts
}

/// The opening of a printer: its attempts, how many failed, and whether the one after
/// those opened.
#[derive(Debug, PartialEq, Eq)]
pub struct Opening {
    attempts: Vec<Attempt>,
    failed: usize,
    opened: bool,
}

/// The state of an opening.
pub struct OpeningModel {
    /// The attempts, in the order in which they are tried.
    pub attempts: Seq<AttemptModel>,
    /// How many were tried and failed.
    pub failed: int,
    /// The attempt after those opened: it is the device.
    pub opened: bool,
}

impl View for Opening {
    type V = OpeningModel;

    closed spec fn view(&self) -> OpeningModel {
        OpeningModel {
            attempts: attempt_models(self.attempts@),
            failed: self.failed as int,
            opened: self.opened,
        }
    }
}

/// No attempt is to be tried: one opened, or all failed.
pub open spec fn opening_over(m: OpeningModel) -> bool {
    m.opened || m.failed >= m.attempts.len()
}

/// The opening after its next attempt.
pub open spec fn after_attempt(m: OpeningModel, opened: bool) -> OpeningModel {
    if opened {
        OpeningModel { opened: true, ..m }
    } else {
        OpeningModel { failed: m.failed + 1, ..m }
    }
}

impl Opening {
    /// An opening with nothing tried yet.
    pub fn new(attempts: Vec<Attempt>) -> (o: Opening)
        ensures
            o@ == (OpeningModel {
                attempts: attempt_models(attempts@),
                failed: 0,
                opened: false,
            }),
    {
        Opening { attempts, failed: 0, opened: false }
    }

    /// The attempt to try next: the one behind those that failed, as long as none
    /// opened and one is left.
    pub fn next_attempt(&self) -> (next: Option<&Attempt>)
        ensures
            match next {
                Some(a) => !opening_over(self@) && a@ == self@.attempts[self@.failed],
                None => opening_over(self@),
            },
    {
        if self.opened || self.failed >= self.attempts.len() {
            None
        } else {
            Some(&self.attempts[self.failed])
        }
    }

    /// Take note of how the next attempt went.
    pub fn tried(&mut self, opened: bool)
        requires
            !opening_over(old(self)@),
        ensures
            final(self)@ == after_attempt(old(self)@, opened),
    {
        if opened {
            self.opened = true;
        } else {
            assert(self.attempts.len() == self.attempts@.len());
            self.failed = self.failed + 1;
        }
    }
}

/// The registered printer that a URI names.
pub open spec fn registered(
    map: Map<Seq<char>, SupvanTransports>,
    uri: Seq<char>,
    slug: Seq<char>,
) -> bool {
    uri == "supvan://"@ + slug && map.contains_key(slug)
}

/// Begin to open a `supvan://<slug>` URI; `None` if it names no registered printer.
pub fn open_supvan(map: &Directory<SupvanTransports>, uri: &str) -> (r: Option<Opening>)
    ensures
        match r {
            Some(o) => exists|slug: Seq<char>| #[trigger]
                registered(map@, uri@, slug) && o@ == (OpeningModel {
                    attempts: attempts_for(map@[slug]),
                    failed: 0,
                    opened: false,
                }),
            None => forall|slug: Seq<char>| !(#[trigger] registered(map@, uri@, slug)),
        },
{
    match strip_prefix(uri, "supvan://") {
        None => {
            proof {
                assert forall|slug: Seq<char>| !(#[trigger] registered(map@, uri@, slug)) by {
                    if uri@ == "supvan://"@ + slug {
                        assert("supvan://"@ =~= uri@.subrange(0, "supvan://"@.len() as int));
                    }
                }
            }
            None
        },
        Some(rest) => {
            proof {
                assert forall|slug: Seq<char>| uri@ == #[trigger] ("supvan://"@ + slug) implies slug
                    == rest@ by {
                    let n = "supvan://"@.len() as int;
                    assert(slug =~= uri@.skip(n));
                    assert(rest@ =~= uri@.skip(n));
                }
            }
            match map.get(rest) {
                Some(t) => {
                    assert(registered(map@, uri@, rest@));
                    Some(Opening::new(transport_attempts(t)))
                },
                None => None,
            }
        },
    }
}

/// `addr` is the address in a `btrfcomm://<host>/<address>` URI: what stands behind
/// the first slash after the scheme.
pub open spec fn is_bt_address(uri: Seq<char>, host: Seq<char>, addr: Seq<char>) -> bool {
    uri == "btrfcomm://"@ + host + seq!['/'] + addr && !host.contains('/')
}

/// What stands behind the first slash of the rest of a Bluetooth URI is its address.
proof fn lemma_split_at_slash(uri: Seq<char>, rest: Seq<char>, i: int)
    requires
        uri == "btrfcomm://"@ + rest,
        0 <= i < rest.len(),
        rest[i] == '/',
        forall|k: int| 0 <= k < i ==> rest[k] != '/',
    ensures
        is_bt_address(uri, rest.take(i), rest.subrange(i + 1, rest.len() as int)),
{
    let host = rest.take(i);
    let addr = rest.subrange(i + 1, rest.len() as int);
    assert(rest =~= host + seq!['/'] + addr);
    assert(uri =~= "btrfcomm://"@ + host + seq!['/'] + addr);
    assert(!host.contains('/'));
}

/// `addr` is the address in a Bluetooth URI.
pub open spec fn names_address(uri: Seq<char>, addr: Seq<char>) -> bool {
    exists|host: Seq<char>| is_bt_address(uri, host, addr)
}

/// A URI of another scheme, or without a slash behind the scheme, names no address.
proof fn lemma_no_address(uri: Seq<char>, addr: Seq<char>)
    requires
        !"btrfcomm://"@.is_prefix_of(uri) || !uri.skip("btrfcomm://"@.len() as int).contains('/'),
    ensures
        !names_address(uri, addr),
{
    if names_address(uri, addr) {
        let host = choose|host: Seq<char>| is_bt_address(uri, host, addr);
        let n = "btrfcomm://"@.len() as int;
        let tail = host + seq!['/'] + addr;
        assert(uri =~= "btrfcomm://"@ + tail);
        assert("btrfcomm://"@ =~= uri.subrange(0, n));
        assert(tail =~= uri.skip(n));
        assert(tail[host.len() as int] == '/');
    }
}

/// The address in a Bluetooth URI, if it is one.
pub fn bt_address<'a>(uri: &'a str) -> (addr: Option<&'a str>)
    ensures
        match addr {
            Some(a) => names_address(uri@, a@),
            None => forall|a: Seq<char>| !(#[trigger] names_address(uri@, a)),
        },
{
    let rest = match strip_prefix(uri, "btrfcomm://") {
        Some(rest) => rest,
        None => {
            proof {
                assert forall|a: Seq<char>| !(#[trigger] names_address(uri@, a)) by {
                    lemma_no_address(uri@, a);
                }
            }
            return None;
        },
    };
    let n: usize = rest.unicode_len();
    let mut i: usize = 0;
    while i < n
        invariant
            i <= n,
            n == rest@.len(),
            uri@ == "btrfcomm://"@ + rest@,
            forall|k: int| 0 <= k < i ==> rest@[k] != '/',
        decreases n - i,
    {
        if rest.get_char(i) == '/' {
            proof {
                lemma_split_at_slash(uri@, rest@, i as int);
            }
            return Some(rest.substring_char(i + 1, n));
        }
        i += 1;
    }
    proof {
        assert(rest@ =~= uri@.skip("btrfcomm://"@.len() as int));
        assert forall|a: Seq<char>| !(#[trigger] names_address(uri@, a)) by {
            lemma_no_address(uri@, a);
        }
    }
    None
}

/// What to do for a connection.
#[derive(Debug, Clone, Copy, PartialEq, Eq, Structural)]
pub enum ConnectStep {
    /// Check whether the cached connection still answers.
    Check,
    /// Use the cached connection.
    Reuse,
    /// Make a new connection.
    Dial,
}

/// What to do first for a connection to this address.
pub fn connect<P>(cache: &Directory<P>, addr: &str) -> (step: ConnectStep)
    ensures
        step == if cache@.contains_key(addr@) {
            ConnectStep::Check
        } else {
            ConnectStep::Dial
        },
{
    match cache.get(addr) {
        Some(_) => ConnectStep::Check,
        None => ConnectStep::Dial,
    }
}

/// What to do once the cached connection was checked: one that does not answer is
/// dropped.
pub fn checked<P>(cache: &mut Directory<P>, addr: &str, alive: bool) -> (step: ConnectStep)
    ensures
        alive ==> step is Reuse && final(cache)@ == old(cache)@,
        !alive ==> step is Dial && final(cache)@ == old(cache)@.remove(addr@),
{
    if alive {
        ConnectStep::Reuse
    } else {
        cache.remove(addr);
        ConnectStep::Dial
    }
}

/// Keep a new connection, if there is one.
pub fn dial_and_cache<P>(cache: &mut Directory<P>, addr: &str, dialed: Option<P>) -> (ok: bool)
    ensures
        ok == (dialed is Some),
        dialed matches Some(p) ==> final(cache)@ == old(cache)@.insert(addr@, p),
        dialed is None ==> final(cache)@ == old(cache)@,
{
    match dialed {
        Some(p) => {
            cache.insert(addr.to_owned(), p);
            true
        },
        None => false,
    }
}

/// USB is tried before Bluetooth, and that before Bluetooth Low Energy; a printer
/// without a transport is not tried at all.
pub proof fn law_usb_is_preferred(t: SupvanTransports)
    ensures
        t.hidraw_path matches Some(path) ==> attempts_for(t)[0] == AttemptModel::Usb(path@),
        t.hidraw_path is None && t.bt_address is Some ==> attempts_for(t)[0] is Bt,
        forall|i: int, j: int|
            0 <= i < j < attempts_for(t).len() ==> !(#[trigger] attempts_for(t)[i] is Ble) && !(
            #[trigger] attempts_for(t)[j] is Usb),
        attempts_for(t).len() == 0 <==> t.hidraw_path is None && t.bt_address is None
            && t.ble_address is None,
{
}

/// The opening of a printer after some attempts went as `outcomes` says.
pub open spec fn tried_so_far(attempts: Seq<AttemptModel>, outcomes: Seq<bool>) -> OpeningModel
    decreases outcomes.len(),
{
    if outcomes.len() == 0 {
        OpeningModel { attempts, failed: 0, opened: false }
    } else {
        after_attempt(tried_so_far(attempts, outcomes.drop_last()), outcomes.last())
    }
}

/// Each attempt was made while there was one to make.
pub open spec fn tried_in_turn(attempts: Seq<AttemptModel>, outcomes: Seq<bool>) -> bool
    decreases outcomes.len(),
{
    outcomes.len() == 0 || (tried_in_turn(attempts, outcomes.drop_last()) && !opening_over(
        tried_so_far(attempts, outcomes.drop_last()),
    ))
}

/// The first attempt that opens is the device: all before it failed, and none behind
/// it is tried. An opening ends without a device exactly when every attempt failed.
pub proof fn law_first_attempt_that_opens_counts(
    attempts: Seq<AttemptModel>,
    outcomes: Seq<bool>,
)
    requires
        tried_in_turn(attempts, outcomes),
    ensures
        ({
            let m = tried_so_far(attempts, outcomes);
            &&& m.attempts == attempts
            &&& outcomes.len() <= attempts.len()
            &&& forall|i: int| 0 <= i < m.failed ==> !#[trigger] outcomes[i]
            &&& m.opened ==> outcomes.len() == m.failed + 1 && outcomes[m.failed]
            &&& !m.opened ==> outcomes.len() == m.failed
            &&& !m.opened ==> (opening_over(m) <==> outcomes.len() == attempts.len())
        }),
    decreases outcomes.len(),
{
    if outcomes.len() > 0 {
        let past = outcomes.drop_last();
        law_first_attempt_that_opens_counts(attempts, past);
        let m = tried_so_far(attempts, outcomes);
        assert forall|i: int| 0 <= i < m.failed implies !#[trigger] outcomes[i] by {
            if i < past.len() {
                assert(outcomes[i] == past[i]);
            }
        }
    }
}

/// The last registration of a printer counts, and it leaves all others alone.
pub proof fn law_last_registration_counts(
    map: Map<Seq<char>, SupvanTransports>,
    slug: Seq<char>,
    first: SupvanTransports,
    second: SupvanTransports,
    other: Seq<char>,
)
    requires
        other != slug,
    ensures
        map.insert(slug, first).insert(slug, second) == map.insert(slug, second),
        map.insert(slug, second)[slug] == second,
        map.insert(slug, second).contains_key(other) == map.contains_key(other),
        map.contains_key(other) ==> map.insert(slug, second)[other] == map[other],
{
    assert(map.insert(slug, first).insert(slug, second) =~= map.insert(slug, second));
}

/// The Bluetooth URI that is made for a registered address leads back to that
/// address, and to no other.
pub proof fn law_bt_uri_leads_to_its_address(addr: Seq<char>)
    ensures
        names_address("btrfcomm://bt/"@ + addr, addr),
        forall|found: Seq<char>| #[trigger]
            names_address("btrfcomm://bt/"@ + addr, found) ==> found == addr,
{
    reveal_strlit("btrfcomm://bt/");
    reveal_strlit("btrfcomm://");
    let uri = "btrfcomm://bt/"@ + addr;
    let bt = seq!['b', 't'];
    assert(uri =~= "btrfcomm://"@ + bt + seq!['/'] + addr);
    assert(is_bt_address(uri, bt, addr));
    assert forall|found: Seq<char>| #[trigger] names_address(uri, found) implies found == addr by {
        let host = choose|host: Seq<char>| is_bt_address(uri, host, found);
        let n = host.len() as int;
        assert(uri[11] == 'b' && uri[12] == 't' && uri[13] == '/');
        if n < 2 {
            assert(uri[11 + n] == '/');
        }
        if n > 2 {
            assert(host[2] == uri[13]);
            assert(host.contains('/'));
        }
        assert(found =~= uri.skip(14));
        assert(addr =~= uri.skip(14));
    }
}

/// Every transport that a printer has is tried, once, and none that it has not: the
/// hidraw device by its path, the low-energy one by its address, and the Bluetooth one
/// by a URI that names its address.
pub proof fn law_each_transport_is_tried_once(t: SupvanTransports)
    ensures
        attempts_for(t).len() == (if t.hidraw_path is Some { 1int } else { 0 }) + (
        if t.bt_address is Some { 1int } else { 0 }) + (if t.ble_address is Some { 1int } else { 0 }),
        t.hidraw_path matches Some(p) ==> attempts_for(t)[0] == AttemptModel::Usb(p@),
        t.ble_address matches Some(a) ==> attempts_for(t).last() == AttemptModel::Ble(a@),
        t.bt_address matches Some(a) ==> {
            let i = if t.hidraw_path is Some { 1int } else { 0 };
            attempts_for(t)[i] matches AttemptModel::Bt(uri) && names_address(uri, a@)
        },
{
    if let Some(a) = t.bt_address {
        law_bt_uri_leads_to_its_address(a@);
    }
}

/// A `supvan://` URI names the printer behind the scheme and no other, and only if it is
/// registered.
pub proof fn law_uri_names_one_printer(
    map: Map<Seq<char>, SupvanTransports>,
    slug: Seq<char>,
    other: Seq<char>,
)
    ensures
        registered(map, "supvan://"@ + slug, slug) <==> map.contains_key(slug),
        registered(map, "supvan://"@ + slug, other) ==> other == slug,
{
    let n = "supvan://"@.len() as int;
    let uri = "supvan://"@ + slug;
    assert(uri.skip(n) =~= slug);
    if registered(map, uri, other) {
        assert(("supvan://"@ + other).skip(n) =~= other);
    }
}

} // verus!
