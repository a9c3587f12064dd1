//! Status notifier items (tray icons) and their watcher: the item
//! properties' values, where an item lives on the bus, which of its pixmaps
//! becomes its icon, and the registry of hosts and items that the watcher
//! keeps.

use vstd::prelude::*;

use crate::number::{decimal_text, push_decimal};
use crate::text::{chars_eq, chars_eq_str, chars_of, slice_of, split, split_once, split_tail_at_char, string_from_chars};

verus! {

broadcast use vstd::string::group_string_axioms;

/// The direction of a scroll on an item.
#[derive(Clone, Copy, Debug, PartialEq, Eq, Structural)]
pub enum Orientation {
    Horizontal,
    Vertical,
}

impl Orientation {
    /// The name of the orientation on the bus.
    pub fn name(&self) -> (r: &'static str)
        ensures
            r@ == match self {
                Orientation::Horizontal => "horizontal"@,
                Orientation::Vertical => "vertical"@,
            },
    {
        match self {
            Orientation::Horizontal => "horizontal",
            Orientation::Vertical => "vertical",
        }
    }
}

/// What kind of application an item belongs to.
#[derive(Clone, Copy, Debug, PartialEq, Eq, Structural)]
pub enum Category {
    /// The status of a generic application, such as a media player.
    ApplicationStatus,
    /// Communication oriented applications, like an instant messenger.
    Communications,
    /// Services of the system, such as a disk indexing service.
    SystemServices,
    /// The state and control of a particular hardware, such as the battery.
    Hardware,
}

/// How important an item is now.
#[derive(Clone, Copy, Debug, PartialEq, Eq, Structural)]
pub enum Status {
    /// Idle; visualizations may hide it.
    Passive,
    /// Active; it should be shown.
    Active,
    /// It carries really important information for the user.
    NeedsAttention,
}

/// The category named `name`, if any.
pub open spec fn spec_category(name: Seq<char>) -> Option<Category> {
    if name == "ApplicationStatus"@ {
        Some(Category::ApplicationStatus)
    } else if name == "Communications"@ {
        Some(Category::Communications)
    } else if name == "SystemServices"@ {
        Some(Category::SystemServices)
    } else if name == "Hardware"@ {
        Some(Category::Hardware)
    } else {
        None
    }
}

/// The status named `name`, if any.
pub open spec fn spec_status(name: Seq<char>) -> Option<Status> {
    if name == "Passive"@ {
        Some(Status::Passive)
    } else if name == "Active"@ {
        Some(Status::Active)
    } else if name == "NeedsAttention"@ {
        Some(Status::NeedsAttention)
    } else {
        None
    }
}

/// Law: each status is read from its own name in the StatusNotifierItem
/// specification, `Passive`, `Active` or `NeedsAttention`, and from no other
/// text.
pub proof fn law_status_names(s: Status, name: Seq<char>)
    ensures
        ({
            let own = match s {
                Status::Passive => "Passive"@,
                Status::Active => "Active"@,
                Status::NeedsAttention => "NeedsAttention"@,
            };
            &&& spec_status(own) == Some(s)
            &&& spec_status(name) == Some(s) ==> name == own
        }),
{
    reveal_strlit("Passive");
    reveal_strlit("Active");
    reveal_strlit("NeedsAttention");
    assert("Passive"@.len() == 7 && "Active"@.len() == 6 && "NeedsAttention"@.len() == 14);
    assert("Passive"@ != "Active"@ && "Passive"@ != "NeedsAttention"@ && "Active"@
        != "NeedsAttention"@);
}

/// Law: each category is read from its own name in the StatusNotifierItem
/// specification, `ApplicationStatus`, `Communications`, `SystemServices`
/// or `Hardware`, and from no other text.
pub proof fn law_category_names(c: Category, name: Seq<char>)
    ensures
        ({
            let own = match c {
                Category::ApplicationStatus => "ApplicationStatus"@,
                Category::Communications => "Communications"@,
                Category::SystemServices => "SystemServices"@,
                Category::Hardware => "Hardware"@,
            };
            &&& spec_category(own) == Some(c)
            &&& spec_category(name) == Some(c) ==> name == own
        }),
{
    reveal_strlit("ApplicationStatus");
    reveal_strlit("Communications");
    reveal_strlit("SystemServices");
    reveal_strlit("Hardware");
    assert("ApplicationStatus"@.len() == 17 && "Communications"@.len() == 14
        && "SystemServices"@.len() == 14 && "Hardware"@.len() == 8);
    assert("Communications"@[0] != "SystemServices"@[0]);
    assert("ApplicationStatus"@ != "Communications"@ && "ApplicationStatus"@ != "SystemServices"@
        && "ApplicationStatus"@ != "Hardware"@ && "Communications"@ != "SystemServices"@
        && "Communications"@ != "Hardware"@ && "SystemServices"@ != "Hardware"@);
}

impl Category {
    /// The category named exactly `name`, if any.
    pub fn from_name(name: &str) -> (r: Option<Category>)
        ensures
            r == spec_category(name@),
    {
        let c = chars_of(name);
        if chars_eq_str(c.as_slice(), "ApplicationStatus") {
            Some(Category::ApplicationStatus)
        } else if chars_eq_str(c.as_slice(), "Communications") {
            Some(Category::Communications)
        } else if chars_eq_str(c.as_slice(), "SystemServices") {
            Some(Category::SystemServices)
        } else if chars_eq_str(c.as_slice(), "Hardware") {
            Some(Category::Hardware)
        } else {
            None
        }
    }
}

impl Status {
    /// The status named exactly `name`, if any.
    pub fn from_name(name: &str) -> (r: Option<Status>)
        ensures
            r == spec_status(name@),
    {
        let c = chars_of(name);
        if chars_eq_str(c.as_slice(), "Passive") {
            Some(Status::Passive)
        } else if chars_eq_str(c.as_slice(), "Active") {
            Some(Status::Active)
        } else if chars_eq_str(c.as_slice(), "NeedsAttention") {
            Some(Status::NeedsAttention)
        } else {
            None
        }
    }
}

/// A change that an item announces.
#[derive(Clone, Copy, Debug, PartialEq, Eq, Structural)]
pub enum Event {
    NewTitle,
    NewStatus(Status),
    NewIcon,
    NewAttentionIcon,
    NewOverlayIcon,
    NewMenu,
}

/// An icon of an item: its size and its pixels, four bytes each, in ARGB
/// order.
#[derive(Clone, Debug, PartialEq, Eq)]
pub struct Pixmap {
    pub width: i32,
    pub height: i32,
    pub data: Vec<u8>,
}

/// An item id that does not hold the `/` between bus name and path.
#[derive(Clone, Debug, PartialEq, Eq)]
pub struct InvalidItemId {
    /// The id.
    pub id: String,
}

/// Where the item with id `id` lives: the bus name before the first `/`, and
/// the object path from that `/` on.
pub open spec fn spec_item_address(id: Seq<char>) -> Option<(Seq<char>, Seq<char>)> {
    match split_once(id, seq!['/']) {
        Some((bus, path)) => Some((bus, seq!['/'] + path)),
        None => None,
    }
}

/// Where the item with id `id` lives: its bus name and its object path.
pub fn item_address(id: &str) -> (r: Result<(String, String), InvalidItemId>)
    ensures
        match spec_item_address(id@) {
            Some((bus, path)) => r matches Ok((b, p)) && b@ == bus && p@ == path,
            None => r matches Err(e) && e.id@ == id@,
        },
{
    let chars = chars_of(id);
    assert(chars@.skip(0) =~= chars@);
    match split_tail_at_char(chars.as_slice(), 0, '/') {
        Some(i) => {
            let b = string_from_chars(slice_of(chars.as_slice(), 0, i));
            let mut path = String::new();
            crate::text::push_char(&mut path, '/');
            let rest = string_from_chars(slice_of(chars.as_slice(), i + 1, chars.len()));
            path.append(rest.as_str());
            assert(path@ =~= seq!['/'] + chars@.skip(i + 1));
            Ok((b, path))
        },
        None => Err(InvalidItemId { id: id.to_owned() }),
    }
}

/// Whether a pixmap of area `a1` ranks above one of area `a2` when the icon
/// should cover `target`: above the target, the smaller ranks higher; a
/// pixmap above the target ranks above one below it; below the target, the
/// bigger ranks higher.
pub open spec fn ranks_above(a1: int, a2: int, target: int) -> bool {
    if a1 >= target && a2 >= target {
        a2 > a1
    } else if a1 >= target {
        true
    } else if a2 >= target {
        false
    } else {
        a1 > a2
    }
}

/// The area of a pixmap.
pub open spec fn area(p: Pixmap) -> int {
    p.width * p.height
}

/// The index of the pixmap kept among the first `n` of `pixmaps`: each
/// pixmap in turn replaces the one kept unless the kept one ranks above it.
pub open spec fn kept_pixmap(pixmaps: Seq<Pixmap>, target: int, n: int) -> int
    decreases n,
{
    if n <= 1 {
        0
    } else {
        let k = kept_pixmap(pixmaps, target, n - 1);
        if ranks_above(area(pixmaps[k]), area(pixmaps[n - 1]), target) {
            k
        } else {
            n - 1
        }
    }
}

/// The index of the pixmap that becomes the icon of size `size`, if there
/// is a pixmap.
pub open spec fn spec_chosen_pixmap(pixmaps: Seq<Pixmap>, size: int) -> Option<int> {
    if pixmaps.len() == 0 {
        None
    } else {
        Some(kept_pixmap(pixmaps, size * size, pixmaps.len() as int))
    }
}

/// Whether the areas of the pixmaps and the target area fit in an `i32`.
pub open spec fn areas_fit(pixmaps: Seq<Pixmap>, size: int) -> bool {
    &&& i32::MIN <= size * size <= i32::MAX
    &&& forall|i: int| 0 <= i < pixmaps.len() ==> i32::MIN <= #[trigger] area(pixmaps[i]) <= i32::MAX
}

/// The index of the pixmap that becomes the icon of size `size`: the
/// smallest at least as big as the icon, else the biggest; the last of
/// equals.
pub fn choose_pixmap(pixmaps: &Vec<Pixmap>, size: i32) -> (r: Option<usize>)
    requires
        areas_fit(pixmaps@, size as int),
    ensures
        match spec_chosen_pixmap(pixmaps@, size as int) {
            Some(k) => r == Some(k as usize),
            None => r is None,
        },
{
    if pixmaps.len() == 0 {
        return None;
    }
    let target = size * size;
    let mut best: usize = 0;
    let mut i: usize = 1;
    while i < pixmaps.len()
        invariant
            1 <= i <= pixmaps@.len(),
            areas_fit(pixmaps@, size as int),
            target == size * size,
            best == kept_pixmap(pixmaps@, target as int, i as int),
            best < i,
        decreases pixmaps.len() - i,
    {
        assert(i32::MIN <= area(pixmaps@[best as int]) <= i32::MAX);
        assert(i32::MIN <= area(pixmaps@[i as int]) <= i32::MAX);
        let a1 = pixmaps[best].width * pixmaps[best].height;
        let a2 = pixmaps[i].width * pixmaps[i].height;
        let above = if a1 >= target && a2 >= target {
            a2 > a1
        } else if a1 >= target {
            true
        } else if a2 >= target {
            false
        } else {
            a1 > a2
        };
        if !above {
            best = i;
        }
        i = i + 1;
    }
    Some(best)
}

proof fn lemma_kept_pixmap(pixmaps: Seq<Pixmap>, target: int, n: int)
    requires
        1 <= n <= pixmaps.len(),
    ensures
        0 <= kept_pixmap(pixmaps, target, n) < n,
        forall|j: int|
            0 <= j < n ==> !ranks_above(
                #[trigger] area(pixmaps[j]),
                area(pixmaps[kept_pixmap(pixmaps, target, n)]),
                target,
            ),
    decreases n,
{
    if n > 1 {
        lemma_kept_pixmap(pixmaps, target, n - 1);
    }
}

/// The pixmap that becomes the icon is the smallest one that covers the
/// icon's size, or the biggest one when none covers it.
pub proof fn law_chosen_pixmap(pixmaps: Seq<Pixmap>, size: int)
    requires
        pixmaps.len() > 0,
    ensures
        ({
            let k = spec_chosen_pixmap(pixmaps, size)->0;
            let t = size * size;
            &&& 0 <= k < pixmaps.len()
            &&& area(pixmaps[k]) >= t ==> forall|j: int|
                0 <= j < pixmaps.len() && #[trigger] area(pixmaps[j]) >= t ==> area(pixmaps[k])
                    <= area(pixmaps[j])
            &&& area(pixmaps[k]) < t ==> forall|j: int|
                0 <= j < pixmaps.len() ==> #[trigger] area(pixmaps[j]) < t && area(pixmaps[j])
                    <= area(pixmaps[k])
        }),
{
    lemma_kept_pixmap(pixmaps, size * size, pixmaps.len() as int);
}

/// The bytes `data` of ARGB pixels turned into RGBA: in each whole group of
/// four bytes the first moves to the end; bytes after the last whole group
/// stay.
pub open spec fn spec_rgba(data: Seq<u8>) -> Seq<u8> {
    Seq::new(
        data.len(),
        |i: int|
            if i < data.len() - data.len() % 4 {
                if i % 4 == 3 {
                    data[i - 3]
                } else {
                    data[i + 1]
                }
            } else {
                data[i]
            },
    )
}

/// Turns the ARGB pixels of `data` into RGBA pixels.
pub fn argb_to_rgba(data: &mut Vec<u8>)
    ensures
        final(data)@ == spec_rgba(old(data)@),
{
    let n = data.len();
    let whole = n - n % 4;
    let mut i: usize = 0;
    while i < whole
        invariant
            n == data@.len(),
            n == old(data)@.len(),
            whole == n - n % 4,
            i % 4 == 0,
            i <= whole,
            forall|j: int| 0 <= j < i ==> #[trigger] data@[j] == spec_rgba(old(data)@)[j],
            forall|j: int| i <= j < n ==> #[trigger] data@[j] == old(data)@[j],
        decreases whole - i,
    {
        let a = data[i];
        let r = data[i + 1];
        let g = data[i + 2];
        let b = data[i + 3];
        data.set(i, r);
        data.set(i + 1, g);
        data.set(i + 2, b);
        data.set(i + 3, a);
        i = i + 4;
    }
    assert(data@ =~= spec_rgba(old(data)@));
}

/// The object path where an item lives when only its bus name is given.
pub open spec fn item_path() -> Seq<char> {
    "/StatusNotifierItem"@
}

/// Whether `c` may stand in an element of a bus name: an ASCII letter or
/// digit, `_` or `-`.
pub open spec fn bus_name_char(c: char) -> bool {
    ('a' <= c && c <= 'z') || ('A' <= c && c <= 'Z') || ('0' <= c && c <= '9') || c == '_' || c
        == '-'
}

/// Whether `c` is an ASCII digit.
pub open spec fn ascii_digit(c: char) -> bool {
    '0' <= c && c <= '9'
}

/// Whether the elements `parts` of a name (the texts between its dots) are
/// at least two, each nonempty and made of allowed characters, and, where
/// `no_digit_first`, none begins with a digit.
pub open spec fn name_elements(parts: Seq<Seq<char>>, no_digit_first: bool) -> bool {
    &&& parts.len() >= 2
    &&& forall|i: int|
        0 <= i < parts.len() ==> {
            let e = #[trigger] parts[i];
            &&& e.len() > 0
            &&& forall|j: int| 0 <= j < e.len() ==> bus_name_char(e[j])
            &&& no_digit_first ==> !ascii_digit(e[0])
        }
}

/// Whether `s` is a unique bus name: a `:` then elements separated by dots,
/// at most 255 characters in all.
pub open spec fn is_unique_name(s: Seq<char>) -> bool {
    s.len() <= 255 && s.len() > 0 && s[0] == ':' && name_elements(split(s.skip(1), '.'), false)
}

/// Whether `s` is a well-known bus name: elements separated by dots, none
/// beginning with a digit, at most 255 characters in all.
pub open spec fn is_well_known_name(s: Seq<char>) -> bool {
    s.len() <= 255 && name_elements(split(s, '.'), true)
}

/// Whether `s` is a bus name, unique or well-known, as D-Bus defines them.
pub open spec fn is_bus_name(s: Seq<char>) -> bool {
    is_unique_name(s) || is_well_known_name(s)
}

/// Whether `c` may stand in an element of an object path: an ASCII letter
/// or digit, or `_`.
pub open spec fn path_char(c: char) -> bool {
    ('a' <= c && c <= 'z') || ('A' <= c && c <= 'Z') || ('0' <= c && c <= '9') || c == '_'
}

/// Whether `s` is an object path: `/` alone, or `/` followed by nonempty
/// elements of allowed characters separated by `/`.
pub open spec fn is_object_path(s: Seq<char>) -> bool {
    &&& s.len() >= 1
    &&& s[0] == '/'
    &&& (s.len() == 1 || forall|i: int|
        0 <= i < split(s.skip(1), '/').len() ==> {
            let e = #[trigger] split(s.skip(1), '/')[i];
            &&& e.len() > 0
            &&& forall|j: int| 0 <= j < e.len() ==> path_char(e[j])
        })
}

/// Whether `s` is a valid bus name.
///
/// Trusted: calls `zbus::names::BusName::try_from`, which accepts `s`
/// exactly when it is a unique name or a well-known name by the rules of
/// `zbus_names` (`unique_name::validate_bytes`, `well_known_name::validate_bytes`):
/// the contract states those rules as [`is_bus_name`].
#[verifier::external_body]
fn bus_name_valid(s: &str) -> (r: bool)
    ensures
        r == is_bus_name(s@),
{
    zbus::names::BusName::try_from(s).is_ok()
}

/// Whether `s` is a valid object path.
///
/// Trusted: calls `zbus::zvariant::ObjectPath::try_from`, which accepts `s`
/// exactly when it is an object path by the rules of `zvariant`'s
/// `object_path::validate`: the contract states those rules as
/// [`is_object_path`].
#[verifier::external_body]
fn object_path_valid(s: &str) -> (r: bool)
    ensures
        r == is_object_path(s@),
{
    zbus::zvariant::ObjectPath::try_from(s).is_ok()
}

/// A service that registered with a text that is neither a bus name nor,
/// from a known sender, an object path.
#[derive(Clone, Debug, PartialEq, Eq)]
pub struct UnknownService {
    pub service: String,
}

/// Where the service that registered as `service` lives, sent by `sender`:
/// a bus name is taken with the items' usual path; an object path is taken
/// on the sender's bus.
pub open spec fn spec_service_address(service: Seq<char>, sender: Option<Seq<char>>) -> Option<
    (Seq<char>, Seq<char>),
> {
    if is_bus_name(service) {
        if is_object_path(item_path()) {
            Some((service, item_path()))
        } else {
            None
        }
    } else {
        match sender {
            Some(s) => if is_object_path(service) {
                Some((s, service))
            } else {
                None
            },
            None => None,
        }
    }
}

/// Where the service that registered as `service`, sent by `sender`, lives,
/// given whether `service` is a bus name (`bus_name`), whether the items'
/// usual path is an object path (`usual_path`), and whether `service` is an
/// object path (`object_path`): its bus name and its object path.
pub fn address_from(
    service: &str,
    sender: Option<&str>,
    bus_name: bool,
    usual_path: bool,
    object_path: bool,
) -> (r: Result<(String, String), UnknownService>)
    ensures
        bus_name && usual_path ==> (r matches Ok((b, p)) && b@ == service@ && p@ == item_path()),
        bus_name && !usual_path ==> (r matches Err(e) && e.service@ == service@),
        !bus_name ==> match sender {
            Some(s) => if object_path {
                r matches Ok((b, p)) && b@ == s@ && p@ == service@
            } else {
                r matches Err(e) && e.service@ == service@
            },
            None => r matches Err(e) && e.service@ == service@,
        },
{
    proof {
        reveal_strlit("/StatusNotifierItem");
    }
    if bus_name {
        if usual_path {
            return Ok((service.to_owned(), "/StatusNotifierItem".to_owned()));
        } else {
            return Err(UnknownService { service: service.to_owned() });
        }
    }
    match sender {
        Some(s) => if object_path {
            Ok((s.to_owned(), service.to_owned()))
        } else {
            Err(UnknownService { service: service.to_owned() })
        },
        None => Err(UnknownService { service: service.to_owned() }),
    }
}

/// Where the service that registered as `service`, sent by `sender`, lives:
/// its bus name and its object path.
pub fn service_address(service: &str, sender: Option<&str>) -> (r: Result<(String, String), UnknownService>)
    ensures
        match spec_service_address(service@, match sender {
            Some(s) => Some(s@),
            None => None,
        }) {
            Some((bus, path)) => r matches Ok((b, p)) && b@ == bus && p@ == path,
            None => r matches Err(e) && e.service@ == service@,
        },
{
    let bus_name = bus_name_valid(service);
    let usual_path = object_path_valid("/StatusNotifierItem");
    let object_path = object_path_valid(service);
    proof {
        reveal_strlit("/StatusNotifierItem");
    }
    address_from(service, sender, bus_name, usual_path, object_path)
}

/// The id under which the watcher keeps a service: its bus name followed by
/// its path.
pub fn service_id(bus: &str, path: &str) -> (r: String)
    ensures
        r@ == bus@ + path@,
{
    let mut out = bus.to_owned();
    out.append(path);
    out
}

/// The texts of `v`.
pub open spec fn texts(v: Seq<String>) -> Seq<Seq<char>> {
    Seq::new(v.len(), |i: int| v[i]@)
}

/// Whether no text occurs twice in `s`.
pub open spec fn distinct(s: Seq<Seq<char>>) -> bool {
    forall|i: int, j: int| 0 <= i < j < s.len() ==> #[trigger] s[i] != #[trigger] s[j]
}

/// The index of `s` in `v`, if it is there.
fn find_text(v: &Vec<String>, s: &str) -> (r: Option<usize>)
    ensures
        match r {
            Some(i) => i < v@.len() && texts(v@)[i as int] == s@,
            None => !texts(v@).contains(s@),
        },
{
    let chars = chars_of(s);
    let mut i: usize = 0;
    while i < v.len()
        invariant
            i <= v@.len(),
            chars@ == s@,
            forall|j: int| 0 <= j < i ==> #[trigger] texts(v@)[j] != s@,
        decreases v.len() - i,
    {
        let c = chars_of(v[i].as_str());
        if chars_eq(c.as_slice(), chars.as_slice()) {
            return Some(i);
        }
        i = i + 1;
    }
    proof {
        if texts(v@).contains(s@) {
            let k = choose|k: int| 0 <= k < texts(v@).len() && texts(v@)[k] == s@;
            assert(texts(v@)[k] != s@);
        }
    }
    None
}

/// What changed when a host registered or went away.
#[derive(Clone, Copy, Debug, PartialEq, Eq, Structural)]
pub struct HostChange {
    /// The host is new (or gone): the watcher announces it.
    pub announced: bool,
    /// Whether any host is registered changed: the watcher announces that
    /// too, before.
    pub presence_changed: bool,
}

/// The hosts and items registered with the watcher, each once.
#[derive(Debug)]
pub struct Registry {
    hosts: Vec<String>,
    items: Vec<String>,
}

impl Registry {
    /// The registered hosts, in the order they came.
    pub closed spec fn hosts(&self) -> Seq<Seq<char>> {
        texts(self.hosts@)
    }

    /// The registered items, in the order they came.
    pub closed spec fn items(&self) -> Seq<Seq<char>> {
        texts(self.items@)
    }

    /// No host and no item occurs twice.
    pub open spec fn wf(&self) -> bool {
        distinct(self.hosts()) && distinct(self.items())
    }

    /// A registry with no host and no item.
    pub fn new() -> (r: Self)
        ensures
            r.hosts() == Seq::<Seq<char>>::empty(),
            r.items() == Seq::<Seq<char>>::empty(),
            r.wf(),
    {
        let r = Registry { hosts: Vec::new(), items: Vec::new() };
        assert(r.hosts() =~= Seq::<Seq<char>>::empty());
        assert(r.items() =~= Seq::<Seq<char>>::empty());
        r
    }

    /// Registers the host `id`; a host already there changes nothing.
    pub fn register_host(&mut self, id: String) -> (r: HostChange)
        requires
            old(self).wf(),
        ensures
            final(self).wf(),
            final(self).items() == old(self).items(),
            old(self).hosts().contains(id@) ==> final(self).hosts() == old(self).hosts() && !r.announced
                && !r.presence_changed,
            !old(self).hosts().contains(id@) ==> final(self).hosts() == old(self).hosts().push(id@)
                && r.announced && r.presence_changed == (old(self).hosts().len() == 0),
    {
        match find_text(&self.hosts, id.as_str()) {
            Some(_) => HostChange { announced: false, presence_changed: false },
            None => {
                let ghost v = id@;
                self.hosts.push(id);
                assert(self.hosts() =~= old(self).hosts().push(v));
                let count = self.hosts.len();
                HostChange { announced: true, presence_changed: count == 1 }
            },
        }
    }

    /// The host `id` went away; a host not there changes nothing.
    pub fn unregister_host(&mut self, id: &str) -> (r: HostChange)
        requires
            old(self).wf(),
        ensures
            final(self).wf(),
            final(self).items() == old(self).items(),
            !old(self).hosts().contains(id@) ==> final(self).hosts() == old(self).hosts() && !r.announced
                && !r.presence_changed,
            old(self).hosts().contains(id@) ==> final(self).hosts() == old(self).hosts().remove(
                old(self).hosts().index_of(id@),
            ) && r.announced && r.presence_changed == (final(self).hosts().len() == 0),
    {
        match find_text(&self.hosts, id) {
            None => HostChange { announced: false, presence_changed: false },
            Some(i) => {
                proof {
                    let h = old(self).hosts();
                    assert(h[i as int] == id@);
                    assert(h.contains(id@));
                    let k = h.index_of(id@);
                    if k < i {
                        assert(h[k] != h[i as int]);
                    } else if k > i {
                        assert(h[i as int] != h[k]);
                    }
                }
                self.hosts.remove(i);
                assert(self.hosts() =~= old(self).hosts().remove(i as int));
                let count = self.hosts.len();
                HostChange { announced: true, presence_changed: count == 0 }
            },
        }
    }

    /// Registers the item `id`: `true` if it is new, and the watcher then
    /// announces it; an item already there changes nothing.
    pub fn register_item(&mut self, id: String) -> (r: bool)
        requires
            old(self).wf(),
        ensures
            final(self).wf(),
            final(self).hosts() == old(self).hosts(),
            r == !old(self).items().contains(id@),
            r ==> final(self).items() == old(self).items().push(id@),
            !r ==> final(self).items() == old(self).items(),
    {
        match find_text(&self.items, id.as_str()) {
            Some(_) => false,
            None => {
                let ghost v = id@;
                self.items.push(id);
                assert(self.items() =~= old(self).items().push(v));
                true
            },
        }
    }

    /// The item `id` went away: `true` if it was there, and the watcher then
    /// announces it.
    pub fn unregister_item(&mut self, id: &str) -> (r: bool)
        requires
            old(self).wf(),
        ensures
            final(self).wf(),
            final(self).hosts() == old(self).hosts(),
            r == old(self).items().contains(id@),
            r ==> final(self).items() == old(self).items().remove(old(self).items().index_of(id@)),
            !r ==> final(self).items() == old(self).items(),
    {
        match find_text(&self.items, id) {
            None => false,
            Some(i) => {
                proof {
                    let h = old(self).items();
                    assert(h[i as int] == id@);
                    assert(h.contains(id@));
                    let k = h.index_of(id@);
                    if k < i {
                        assert(h[k] != h[i as int]);
                    } else if k > i {
                        assert(h[i as int] != h[k]);
                    }
                }
                self.items.remove(i);
                assert(self.items() =~= old(self).items().remove(i as int));
                true
            },
        }
    }

    /// The registered items.
    pub fn registered_items(&self) -> (r: Vec<String>)
        ensures
            texts(r@) == self.items(),
    {
        let mut out: Vec<String> = Vec::new();
        let mut i: usize = 0;
        while i < self.items.len()
            invariant
                i <= self.items@.len(),
                texts(out@) == self.items().take(i as int),
            decreases self.items.len() - i,
        {
            let s = self.items[i].as_str().to_owned();
            assert(s@ == self.items()[i as int]);
            let ghost prev = out@;
            let ghost sv = s@;
            out.push(s);
            assert(texts(out@) =~= texts(prev).push(sv));
            assert(texts(out@) =~= self.items().take(i + 1));
            i = i + 1;
        }
        assert(self.items().take(i as int) =~= self.items());
        out
    }

    /// Whether any host is registered.
    pub fn is_host_registered(&self) -> (r: bool)
        ensures
            r == (self.hosts().len() > 0),
    {
        self.hosts.len() > 0
    }

    /// The version of the protocol the watcher speaks.
    pub fn protocol_version(&self) -> (r: i32)
        ensures
            r == 0,
    {
        0
    }
}

/// A host, or an item, that registers and then goes away leaves the
/// registry as it was: [`Registry::register_host`] and
/// [`Registry::register_item`] push a new id, and
/// [`Registry::unregister_host`] and [`Registry::unregister_item`] remove it
/// where it is.
pub proof fn law_host_register_unregister(hosts: Seq<Seq<char>>, id: Seq<char>)
    requires
        distinct(hosts),
        !hosts.contains(id),
    ensures
        hosts.push(id).remove(hosts.push(id).index_of(id)) == hosts,
{
    let h = hosts.push(id);
    assert(h[hosts.len() as int] == id);
    assert(h.contains(id));
    let k = h.index_of(id);
    if k < hosts.len() {
        assert(hosts[k] == id);
        assert(hosts.contains(id));
    }
    assert(h.remove(k) =~= hosts);
}

impl Registry {
    /// Whether the item `id` is registered.
    pub fn has_item(&self, id: &str) -> (r: bool)
        ensures
            r == self.items().contains(id@),
    {
        find_text(&self.items, id).is_some()
    }

    /// Whether a tray host must build the item `id` that announced itself
    /// as `registered` (or gone): only a new item that registers.
    pub fn item_needs_building(&self, registered: bool, id: &str) -> (r: bool)
        ensures
            r == (registered && !self.items().contains(id@)),
    {
        registered && !self.has_item(id)
    }

    /// One event of a tray host that keeps its items in this registry: the
    /// item `id` registered (`registered`) or went away, and `built` says
    /// whether its item could be built. What the host is told, as
    /// [`spec_item_step`] says: `Some(true)` that the item is registered,
    /// `Some(false)` that it is gone, `None` nothing.
    pub fn item_event(&mut self, registered: bool, id: String, built: bool) -> (r: Option<bool>)
        requires
            old(self).wf(),
        ensures
            final(self).wf(),
            final(self).hosts() == old(self).hosts(),
            (final(self).items(), r) == spec_item_step(old(self).items(), registered, id@, built),
    {
        if registered {
            if built && self.register_item(id) {
                Some(true)
            } else {
                None
            }
        } else if self.unregister_item(id.as_str()) {
            Some(false)
        } else {
            None
        }
    }

    /// One item of the watcher's list when the host starts: the host is told
    /// of it whenever it could be built, and it is kept, as
    /// [`spec_initial_step`] says.
    pub fn initial_item(&mut self, id: String, built: bool) -> (r: Option<bool>)
        requires
            old(self).wf(),
        ensures
            final(self).wf(),
            final(self).hosts() == old(self).hosts(),
            (final(self).items(), r) == spec_initial_step(old(self).items(), id@, built),
    {
        if built {
            self.register_item(id);
            Some(true)
        } else {
            None
        }
    }
}

/// One event of a tray host over its items `items`: the item `id`
/// registered (`registered`) or went away, and `built` says whether its item
/// could be built. A new item that registers and could be built is kept and
/// reported registered; an item there that goes away is dropped and
/// reported gone; any other event changes nothing. The new items, and what
/// the host is told (`Some(true)` registered, `Some(false)` gone).
pub open spec fn spec_item_step(items: Seq<Seq<char>>, registered: bool, id: Seq<char>, built: bool) -> (
    Seq<Seq<char>>,
    Option<bool>,
) {
    if registered {
        if !items.contains(id) && built {
            (items.push(id), Some(true))
        } else {
            (items, None)
        }
    } else if items.contains(id) {
        (items.remove(items.index_of(id)), Some(false))
    } else {
        (items, None)
    }
}

/// One item `id` of the watcher's list when the host starts: reported
/// registered whenever it could be built, and kept.
pub open spec fn spec_initial_step(items: Seq<Seq<char>>, id: Seq<char>, built: bool) -> (
    Seq<Seq<char>>,
    Option<bool>,
) {
    if built {
        (if items.contains(id) {
            items
        } else {
            items.push(id)
        }, Some(true))
    } else {
        (items, None)
    }
}

/// The items, and the calls made on the host (registered or gone, and the
/// id), after the events `events` from the items `items`.
pub open spec fn run_events(items: Seq<Seq<char>>, events: Seq<(bool, Seq<char>, bool)>) -> (
    Seq<Seq<char>>,
    Seq<(bool, Seq<char>)>,
)
    decreases events.len(),
{
    if events.len() == 0 {
        (items, seq![])
    } else {
        let (mid, calls) = run_events(items, events.drop_last());
        let e = events.last();
        let (after, call) = spec_item_step(mid, e.0, e.1, e.2);
        (after, match call {
            Some(b) => calls.push((b, e.1)),
            None => calls,
        })
    }
}

/// The items, and the calls made on the host, after the watcher's list
/// `initial` (each id with whether its item could be built) from `items`.
pub open spec fn run_initial(items: Seq<Seq<char>>, initial: Seq<(Seq<char>, bool)>) -> (
    Seq<Seq<char>>,
    Seq<(bool, Seq<char>)>,
)
    decreases initial.len(),
{
    if initial.len() == 0 {
        (items, seq![])
    } else {
        let (mid, calls) = run_initial(items, initial.drop_last());
        let e = initial.last();
        let (after, call) = spec_initial_step(mid, e.0, e.1);
        (after, match call {
            Some(b) => calls.push((b, e.0)),
            None => calls,
        })
    }
}

/// Whether the item `id` is registered for the host after the calls
/// `calls`, when it was (`member0`) before them.
pub open spec fn member_after(member0: bool, calls: Seq<(bool, Seq<char>)>, id: Seq<char>) -> bool
    decreases calls.len(),
{
    if calls.len() == 0 {
        member0
    } else if calls.last().1 == id {
        calls.last().0
    } else {
        member_after(member0, calls.drop_last(), id)
    }
}

/// Whether the calls `calls` about `id` alternate: `id` is reported
/// registered only while it is not, and gone only while it is.
pub open spec fn alternating(member0: bool, calls: Seq<(bool, Seq<char>)>, id: Seq<char>) -> bool {
    forall|k: int|
        0 <= k < calls.len() && (#[trigger] calls[k]).1 == id ==> calls[k].0 != member_after(
            member0,
            calls.take(k),
            id,
        )
}

proof fn lemma_call_push(member0: bool, calls: Seq<(bool, Seq<char>)>, x: (bool, Seq<char>), id: Seq<char>)
    requires
        alternating(member0, calls, id),
        x.1 == id ==> x.0 != member_after(member0, calls, id),
    ensures
        alternating(member0, calls.push(x), id),
        member_after(member0, calls.push(x), id) == if x.1 == id {
            x.0
        } else {
            member_after(member0, calls, id)
        },
{
    let c = calls.push(x);
    assert(c.drop_last() =~= calls);
    assert forall|k: int| 0 <= k < c.len() && (#[trigger] c[k]).1 == id implies c[k].0 != member_after(
        member0,
        c.take(k),
        id,
    ) by {
        if k < calls.len() {
            assert(c[k] == calls[k]);
            assert(c.take(k) =~= calls.take(k));
        } else {
            assert(c.take(k) =~= calls);
        }
    }
}

proof fn lemma_distinct_remove(s: Seq<Seq<char>>, i: int)
    requires
        distinct(s),
        0 <= i < s.len(),
    ensures
        distinct(s.remove(i)),
        !s.remove(i).contains(s[i]),
        forall|y: Seq<char>| y != s[i] ==> (s.remove(i).contains(y) == s.contains(y)),
{
    let r = s.remove(i);
    assert forall|a: int, b: int| 0 <= a < b < r.len() implies #[trigger] r[a] != #[trigger] r[b] by {
        let a2 = if a < i { a } else { a + 1 };
        let b2 = if b < i { b } else { b + 1 };
        assert(r[a] == s[a2] && r[b] == s[b2]);
    }
    if r.contains(s[i]) {
        let k = choose|k: int| 0 <= k < r.len() && r[k] == s[i];
        let k2 = if k < i { k } else { k + 1 };
        assert(r[k] == s[k2]);
    }
    assert forall|y: Seq<char>| y != s[i] implies (r.contains(y) == s.contains(y)) by {
        if r.contains(y) {
            let k = choose|k: int| 0 <= k < r.len() && r[k] == y;
            let k2 = if k < i { k } else { k + 1 };
            assert(r[k] == s[k2]);
        }
        if s.contains(y) {
            let k = choose|k: int| 0 <= k < s.len() && s[k] == y;
            let k2 = if k < i { k } else { k - 1 };
            assert(r[k2] == s[k]);
        }
    }
}

/// One step keeps the items distinct, and keeps the registration of `id`
/// in line with the calls, which alternate.
proof fn lemma_item_step(
    items: Seq<Seq<char>>,
    member0: bool,
    calls: Seq<(bool, Seq<char>)>,
    registered: bool,
    e_id: Seq<char>,
    built: bool,
    id: Seq<char>,
)
    requires
        distinct(items),
        items.contains(id) == member_after(member0, calls, id),
        alternating(member0, calls, id),
    ensures
        ({
            let (after, call) = spec_item_step(items, registered, e_id, built);
            let calls2 = match call {
                Some(b) => calls.push((b, e_id)),
                None => calls,
            };
            &&& distinct(after)
            &&& after.contains(id) == member_after(member0, calls2, id)
            &&& alternating(member0, calls2, id)
        }),
{
    let (after, call) = spec_item_step(items, registered, e_id, built);
    if registered {
        if !items.contains(e_id) && built {
            assert forall|a: int, b: int| 0 <= a < b < after.len() implies #[trigger] after[a]
                != #[trigger] after[b] by {
                if b == items.len() {
                    assert(after[b] == e_id);
                    assert(after[a] == items[a]);
                } else {
                    assert(after[a] == items[a] && after[b] == items[b]);
                }
            }
            assert(after[items.len() as int] == e_id);
            assert(after.contains(id) == (items.contains(id) || e_id == id)) by {
                if after.contains(id) && e_id != id {
                    let k = choose|k: int| 0 <= k < after.len() && after[k] == id;
                    assert(after[k] == items[k]);
                }
                if items.contains(id) {
                    let k = choose|k: int| 0 <= k < items.len() && items[k] == id;
                    assert(after[k] == items[k]);
                }
            }
            lemma_call_push(member0, calls, (true, e_id), id);
        }
    } else if items.contains(e_id) {
        let i = items.index_of(e_id);
        lemma_distinct_remove(items, i);
        lemma_call_push(member0, calls, (false, e_id), id);
    }
}

proof fn lemma_run_events(
    items: Seq<Seq<char>>,
    member0: bool,
    calls0: Seq<(bool, Seq<char>)>,
    events: Seq<(bool, Seq<char>, bool)>,
    id: Seq<char>,
)
    requires
        distinct(items),
        items.contains(id) == member_after(member0, calls0, id),
        alternating(member0, calls0, id),
    ensures
        ({
            let (after, calls) = run_events(items, events);
            &&& distinct(after)
            &&& after.contains(id) == member_after(member0, calls0 + calls, id)
            &&& alternating(member0, calls0 + calls, id)
        }),
    decreases events.len(),
{
    if events.len() == 0 {
        assert(calls0 + Seq::<(bool, Seq<char>)>::empty() =~= calls0);
    } else {
        lemma_run_events(items, member0, calls0, events.drop_last(), id);
        let (mid, calls) = run_events(items, events.drop_last());
        let e = events.last();
        lemma_item_step(mid, member0, calls0 + calls, e.0, e.1, e.2, id);
        assert((calls0 + calls).push((true, e.1)) =~= calls0 + calls.push((true, e.1)));
        assert((calls0 + calls).push((false, e.1)) =~= calls0 + calls.push((false, e.1)));
    }
}

/// The ids of the watcher's list `initial`.
pub open spec fn initial_ids(initial: Seq<(Seq<char>, bool)>) -> Seq<Seq<char>> {
    Seq::new(initial.len(), |i: int| initial[i].0)
}

/// The watcher's list `initial` as registration events.
pub open spec fn as_events(initial: Seq<(Seq<char>, bool)>) -> Seq<(bool, Seq<char>, bool)> {
    Seq::new(initial.len(), |i: int| (true, initial[i].0, initial[i].1))
}

proof fn lemma_initial_as_events(items: Seq<Seq<char>>, initial: Seq<(Seq<char>, bool)>)
    requires
        distinct(initial_ids(initial)),
        forall|k: int| 0 <= k < initial.len() ==> !items.contains(#[trigger] initial[k].0),
    ensures
        run_initial(items, initial) == run_events(items, as_events(initial)),
        forall|y: Seq<char>|
            #[trigger] run_initial(items, initial).0.contains(y) ==> items.contains(y)
                || initial_ids(initial).contains(y),
    decreases initial.len(),
{
    if initial.len() > 0 {
        let prev = initial.drop_last();
        assert(distinct(initial_ids(prev))) by {
            assert forall|a: int, b: int| 0 <= a < b < initial_ids(prev).len() implies #[trigger] initial_ids(
                prev,
            )[a] != #[trigger] initial_ids(prev)[b] by {
                assert(initial_ids(prev)[a] == initial_ids(initial)[a]);
                assert(initial_ids(prev)[b] == initial_ids(initial)[b]);
            }
        }
        assert forall|k: int| 0 <= k < prev.len() implies !items.contains(#[trigger] prev[k].0) by {
            assert(prev[k] == initial[k]);
        }
        lemma_initial_as_events(items, prev);
        assert(as_events(initial).drop_last() =~= as_events(prev));
        let (mid, calls) = run_initial(items, prev);
        let x = initial.last();
        let n = initial.len() - 1;
        assert(initial_ids(initial)[n] == x.0);
        assert(!mid.contains(x.0)) by {
            if mid.contains(x.0) {
                assert(!items.contains(initial[n].0));
                assert(initial_ids(prev).contains(x.0));
                let k = choose|k: int| 0 <= k < initial_ids(prev).len() && initial_ids(prev)[k] == x.0;
                assert(initial_ids(initial)[k] == initial_ids(prev)[k]);
            }
        }
        assert(as_events(initial).last() == (true, x.0, x.1));
        let after = run_initial(items, initial).0;
        assert forall|y: Seq<char>| #[trigger] after.contains(y) implies items.contains(y)
            || initial_ids(initial).contains(y) by {
            if y == x.0 {
                assert(initial_ids(initial)[n] == y);
            } else if after.contains(y) {
                let k = choose|k: int| 0 <= k < after.len() && after[k] == y;
                if x.1 {
                    assert(k < mid.len());
                    assert(after[k] == mid[k]);
                }
                assert(mid.contains(y));
                if initial_ids(prev).contains(y) {
                    let j = choose|j: int| 0 <= j < initial_ids(prev).len() && initial_ids(prev)[j] == y;
                    assert(initial_ids(initial)[j] == y);
                }
            }
        }
    }
}

/// Law: a tray host never reports an item registered twice without it
/// going away in between, nor gone while it is not registered. From no
/// items, through the watcher's list at start (which holds each id once;
/// `built` with each id) and then any events in any order, the calls about
/// each id alternate, starting with a registration.
pub proof fn law_tray_calls_alternate(
    initial: Seq<(Seq<char>, bool)>,
    events: Seq<(bool, Seq<char>, bool)>,
    id: Seq<char>,
)
    requires
        distinct(initial_ids(initial)),
    ensures
        ({
            let (items1, calls1) = run_initial(seq![], initial);
            let (items2, calls2) = run_events(items1, events);
            &&& alternating(false, calls1 + calls2, id)
            &&& items2.contains(id) == member_after(false, calls1 + calls2, id)
        }),
{
    let empty = Seq::<Seq<char>>::empty();
    lemma_initial_as_events(empty, initial);
    assert(alternating(false, Seq::<(bool, Seq<char>)>::empty(), id));
    lemma_run_events(empty, false, seq![], as_events(initial), id);
    let (items1, calls1) = run_initial(empty, initial);
    assert(Seq::<(bool, Seq<char>)>::empty() + calls1 =~= calls1);
    lemma_run_events(items1, false, calls1, events, id);
}

/// The well-known name that the bar's host asks for on its `attempt`-th
/// try, in the process `pid`.
pub open spec fn spec_host_name(pid: u32, attempt: u64) -> Seq<char> {
    "org.freedesktop.StatusNotifierHost-"@ + decimal_text(pid as nat) + "-"@ + decimal_text(
        attempt as nat,
    )
}

/// The well-known name that the bar's host asks for on its `attempt`-th
/// try, in the process `pid`.
pub fn host_name(pid: u32, attempt: u64) -> (r: String)
    ensures
        r@ == spec_host_name(pid, attempt),
{
    let mut out = "org.freedesktop.StatusNotifierHost-".to_owned();
    push_decimal(&mut out, pid as u64);
    out.append("-");
    push_decimal(&mut out, attempt);
    out
}

/// Whether an item of status `status` is shown: a passive one is hidden.
pub fn is_shown(status: Status) -> (r: bool)
    ensures
        r == (status != Status::Passive),
{
    match status {
        Status::Passive => false,
        Status::Active | Status::NeedsAttention => true,
    }
}

/// What a left click on an item does next.
#[derive(Clone, Copy, Debug, PartialEq, Eq, Structural)]
pub enum Click {
    /// Show the item's menu.
    PopupMenu,
    /// Ask the item to activate.
    Activate,
    /// Nothing more.
    Done,
}

/// What a left click does first, from whether the item says it is only a
/// menu (`None` when it could not tell): a menu pops up, anything else is
/// activated.
pub fn left_click(item_is_menu: Option<bool>) -> (r: Click)
    ensures
        r == (if item_is_menu == Some(true) {
            Click::PopupMenu
        } else {
            Click::Activate
        }),
{
    match item_is_menu {
        Some(true) => Click::PopupMenu,
        _ => Click::Activate,
    }
}

/// The name of the D-Bus error for a method that the object does not have.
pub open spec fn unknown_method() -> Seq<char> {
    "org.freedesktop.DBus.Error.UnknownMethod"@
}

/// What activating an item gave, from the outcome of its `Activate` call
/// and, when the call failed with a method error, that error's name
/// (`error_name`): `Ok(true)` when the call went through, `Ok(false)` when
/// the item has no `Activate` method (some items only have a menu), and the
/// error otherwise.
pub fn activation_result<E>(outcome: Result<(), E>, error_name: Option<&str>) -> (r: Result<bool, E>)
    ensures
        r == match outcome {
            Ok(()) => Ok(true),
            Err(e) => if error_name matches Some(n) && n@ == unknown_method() {
                Ok(false)
            } else {
                Err(e)
            },
        },
{
    match outcome {
        Ok(()) => Ok(true),
        Err(e) => {
            let unknown = match error_name {
                Some(n) => {
                    let c = chars_of(n);
                    chars_eq_str(c.as_slice(), "org.freedesktop.DBus.Error.UnknownMethod")
                },
                None => false,
            };
            if unknown {
                Ok(false)
            } else {
                Err(e)
            }
        },
    }
}

/// What follows the activation of an item, from whether the item has an
/// activation method (`true`) or not: an item without one shows its menu.
pub fn after_activate(activated: bool) -> (r: Click)
    ensures
        r == (if activated {
            Click::Done
        } else {
            Click::PopupMenu
        }),
{
    if activated {
        Click::Done
    } else {
        Click::PopupMenu
    }
}

} // verus!
