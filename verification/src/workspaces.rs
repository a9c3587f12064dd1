//! The workspace strip of the bar: workspace buttons labelled with Japanese
//! numerals, kept in id order, the active one marked, and the focused
//! window's title beside them.

use vstd::prelude::*;

use crate::number::{
    decimal_digits, direct_matches, japanese_direct, lemma_decimal_digits_bound, lemma_leading_digit_bound, lemma_leading_part, lemma_pow10_positive, japanese_numeral, leading_digit, pow10, spec_japanese_direct,
    Japanese,
};
use crate::hyprland::events::Event;
use crate::hyprland::{WindowAddress, Workspace};
use crate::text::{chars_eq_str, chars_of};
use crate::title::{format_window, rule_texts, spec_format_window, TitleRewrite};

verus! {

/// The Japanese text of `n` as the workspace strip writes it: the leading
/// digit (left out when it is one), the numeral of its power of ten, then the
/// text of the rest when the rest is not zero. `None` where a power of ten has
/// no numeral of its own.
pub open spec fn spec_japanese_u32(n: nat) -> Option<Seq<char>>
    decreases n,
{
    match spec_japanese_direct(n as int) {
        Some(t) => Some(t),
        None => {
            let b = leading_digit(n);
            let m = pow10((decimal_digits(n) - 1) as nat);
            let rest = n - b * m;
            match spec_japanese_direct(m as int) {
                None => None,
                Some(mt) => {
                    let head = if b == 1 {
                        seq![]
                    } else {
                        seq![japanese_numeral(b as int)->0]
                    };
                    if rest == 0 {
                        Some(head + mt)
                    } else {
                        proof {
                            lemma_leading_part(n);
                        }
                        match spec_japanese_u32((n - b * m) as nat) {
                            Some(t) => Some(head + mt + t),
                            None => None,
                        }
                    }
                },
            }
        },
    }
}

/// Law: a workspace id from 11 to 99 is written as Japanese writes tens:
/// the tens digit (left out when it is one), 十, then the units digit (left
/// out when it is zero): 16 is 十六, 20 is 二十, 21 is 二十一.
pub proof fn law_two_digit_japanese(n: nat)
    requires
        10 < n < 100,
    ensures
        ({
            let digits = seq!['〇', '一', '二', '三', '四', '五', '六', '七', '八', '九'];
            let tens = n / 10;
            let units = n % 10;
            spec_japanese_u32(n) == Some(
                (if tens == 1 {
                    Seq::<char>::empty()
                } else {
                    seq![digits[tens as int]]
                }) + seq!['十'] + (if units == 0 {
                    Seq::<char>::empty()
                } else {
                    seq![digits[units as int]]
                }),
            )
        }),
{
    reveal_with_fuel(leading_digit, 2);
    reveal_with_fuel(decimal_digits, 2);
    reveal_with_fuel(pow10, 2);
    assert(leading_digit(n) == n / 10);
    assert(decimal_digits(n) == 2);
    assert(pow10(1) == 10);
    crate::number::law_japanese_numerals((n / 10) as int);
    crate::number::law_japanese_numerals((n % 10) as int);
    crate::number::law_japanese_numerals(n as int);
    crate::number::law_japanese_numerals(10);
    assert(n - (n / 10) * 10 == n % 10);
    if n % 10 != 0 {
        assert(spec_japanese_u32((n % 10) as nat) == spec_japanese_direct((n % 10) as int));
    }
}

/// `10` to the power `e`.
fn pow10_u32(e: u32) -> (r: u32)
    requires
        pow10(e as nat) <= u32::MAX,
    ensures
        r == pow10(e as nat),
{
    let mut r: u32 = 1;
    let mut i: u32 = 0;
    while i < e
        invariant
            i <= e,
            r == pow10(i as nat),
            pow10(e as nat) <= u32::MAX,
        decreases e - i,
    {
        proof {
            lemma_pow10_monotone((i + 1) as nat, e as nat);
        }
        r = r * 10;
        i = i + 1;
    }
    r
}

proof fn lemma_pow10_monotone(a: nat, b: nat)
    requires
        a <= b,
    ensures
        pow10(a) <= pow10(b),
    decreases b,
{
    if a < b {
        lemma_pow10_monotone(a, (b - 1) as nat);
        lemma_pow10_positive((b - 1) as nat);
    }
}

/// The Japanese text of `n`, as [`spec_japanese_u32`] gives it, or `None`
/// where a power of ten in it has no numeral of its own.
pub fn japanese_text(n: u32) -> (r: Option<String>)
    ensures
        match spec_japanese_u32(n as nat) {
            Some(t) => r matches Some(s) && s@ == t,
            None => r is None,
        },
    decreases n,
{
    if let Some(x) = japanese_direct(n as i64) {
        return Some(x.to_owned());
    }
    let (base, e) = n.first_digit();
    proof {
        lemma_leading_part(n as nat);
        lemma_leading_digit_bound(n as nat);
        lemma_pow10_positive(e as nat);
        let m = pow10(e as nat);
        assert(m <= base * m) by (nonlinear_arith)
            requires
                base >= 1,
        ;
    }
    let multiplier = pow10_u32(e);
    let remaining = n - base * multiplier;
    let mut out = String::new();
    if base != 1 {
        if let Some(x) = japanese_direct(base as i64) {
            out.append(x);
        }
    }
    match japanese_direct(multiplier as i64) {
        Some(x) => out.append(x),
        None => return None,
    }
    if remaining != 0 {
        match japanese_text(remaining) {
            Some(rest) => out.append(rest.as_str()),
            None => return None,
        }
    }
    assert(out@ =~= spec_japanese_u32(n as nat)->0);
    Some(out)
}

/// Decimal facts and Japanese numerals for workspace ids.
pub trait NumberExt: Sized {
    /// The value of `self`.
    spec fn number(&self) -> nat;

    /// The leading digit of `self`, and how many digits follow it.
    fn first_digit(self) -> (r: (Self, u32))
        ensures
            r.0.number() == leading_digit(self.number()),
            r.1 == decimal_digits(self.number()) - 1,
    ;

    /// The single numeral that stands for `self`, if there is one.
    fn as_japanese_direct(&self) -> (r: Option<&'static str>)
        ensures
            direct_matches(r, spec_japanese_direct(self.number() as int)),
    ;

    /// `self` in Japanese numerals.
    fn to_japanese(&self) -> (r: String)
        requires
            spec_japanese_u32(self.number()) is Some,
        ensures
            spec_japanese_u32(self.number()) == Some(r@),
    ;
}

impl NumberExt for u32 {
    open spec fn number(&self) -> nat {
        *self as nat
    }

    fn first_digit(self) -> (r: (Self, u32)) {
        let mut v = self;
        let mut i: u32 = 0;
        proof {
            lemma_decimal_digits_bound(self as nat);
            lemma_digits_at_most_ten(self as nat);
        }
        while v >= 10
            invariant
                leading_digit(v as nat) == leading_digit(self as nat),
                i + decimal_digits(v as nat) == decimal_digits(self as nat),
                decimal_digits(self as nat) <= 10,
            decreases v,
        {
            v = v / 10;
            i = i + 1;
        }
        (v, i)
    }

    fn as_japanese_direct(&self) -> (r: Option<&'static str>) {
        japanese_direct(*self as i64)
    }

    fn to_japanese(&self) -> (r: String) {
        match japanese_text(*self) {
            Some(t) => t,
            None => {
                assert(false);
                String::new()
            },
        }
    }
}

proof fn lemma_digits_at_most_ten(n: nat)
    requires
        n <= u32::MAX,
    ensures
        decimal_digits(n) <= 10,
{
    assert(n / 10 / 10 / 10 / 10 / 10 / 10 / 10 / 10 / 10 < 10);
    reveal_with_fuel(decimal_digits, 11);
}

/// Whether the ids of `s` are in increasing order (equal ids side by side).
pub open spec fn sorted(s: Seq<u32>) -> bool {
    forall|i: int, j: int| 0 <= i <= j < s.len() ==> s[i] <= s[j]
}

/// The first index at or after `i` where `s` holds `id`.
pub open spec fn index_of_from(s: Seq<u32>, id: u32, i: int) -> Option<int>
    decreases s.len() - i,
{
    if i < 0 || i >= s.len() {
        None
    } else if s[i] == id {
        Some(i)
    } else {
        index_of_from(s, id, i + 1)
    }
}

/// The first index where `s` holds `id`.
pub open spec fn index_of(s: Seq<u32>, id: u32) -> Option<int> {
    index_of_from(s, id, 0)
}

/// The first index at or after `i` whose id is greater than `id`, or the
/// length of `s` where there is none.
pub open spec fn insert_position_from(s: Seq<u32>, id: u32, i: int) -> int
    decreases s.len() - i,
{
    if i < 0 || i >= s.len() {
        s.len() as int
    } else if s[i] > id {
        i
    } else {
        insert_position_from(s, id, i + 1)
    }
}

/// Where a new workspace `id` goes among the ids `s`: before the first
/// greater id, else at the end.
pub open spec fn insert_position(s: Seq<u32>, id: u32) -> int {
    insert_position_from(s, id, 0)
}

/// The ids `s` with `id` added at its place.
pub open spec fn with_workspace(s: Seq<u32>, id: u32) -> Seq<u32> {
    s.insert(insert_position(s, id), id)
}

/// The ids `s` with the first `id` taken out, if there is one.
pub open spec fn without_workspace(s: Seq<u32>, id: u32) -> Seq<u32> {
    match index_of(s, id) {
        Some(k) => s.remove(k),
        None => s,
    }
}

proof fn lemma_index_of_from(s: Seq<u32>, id: u32, i: int)
    requires
        0 <= i,
    ensures
        match index_of_from(s, id, i) {
            Some(k) => i <= k < s.len() && s[k] == id && forall|j: int|
                i <= j < k ==> #[trigger] s[j] != id,
            None => forall|j: int| i <= j < s.len() ==> #[trigger] s[j] != id,
        },
    decreases s.len() - i,
{
    if i < s.len() && s[i] != id {
        lemma_index_of_from(s, id, i + 1);
    }
}

proof fn lemma_insert_position_from(s: Seq<u32>, id: u32, i: int)
    requires
        0 <= i <= s.len(),
    ensures
        i <= insert_position_from(s, id, i) <= s.len(),
        forall|j: int| i <= j < insert_position_from(s, id, i) ==> #[trigger] s[j] <= id,
        insert_position_from(s, id, i) < s.len() ==> s[insert_position_from(s, id, i)] > id,
    decreases s.len() - i,
{
    if i < s.len() && s[i] <= id {
        lemma_insert_position_from(s, id, i + 1);
    }
}

/// What the first index of `id` in `s` is: the first `k` holding `id`, or
/// none where no index holds it.
pub proof fn lemma_index_of(s: Seq<u32>, id: u32)
    ensures
        match index_of(s, id) {
            Some(k) => 0 <= k < s.len() && s[k] == id && forall|j: int|
                0 <= j < k ==> #[trigger] s[j] != id,
            None => !s.contains(id),
        },
{
    lemma_index_of_from(s, id, 0);
}

/// Where `id` is inserted among sorted ids: after every id not greater than
/// it, before every greater one.
pub proof fn lemma_insert_position(s: Seq<u32>, id: u32)
    requires
        sorted(s),
    ensures
        0 <= insert_position(s, id) <= s.len(),
        forall|j: int| 0 <= j < insert_position(s, id) ==> #[trigger] s[j] <= id,
        forall|j: int| insert_position(s, id) <= j < s.len() ==> #[trigger] s[j] > id,
{
    lemma_insert_position_from(s, id, 0);
    let k = insert_position(s, id);
    assert forall|j: int| k <= j < s.len() implies #[trigger] s[j] > id by {
        assert(s[k] <= s[j]);
    }
}

/// Adding a workspace keeps the ids in order, and adds exactly that id.
pub proof fn law_add_keeps_order(s: Seq<u32>, id: u32)
    requires
        sorted(s),
    ensures
        sorted(with_workspace(s, id)),
        with_workspace(s, id).to_multiset() == s.to_multiset().insert(id),
{
    broadcast use vstd::multiset::group_multiset_axioms;

    lemma_insert_position(s, id);
    let k = insert_position(s, id);
    let t = with_workspace(s, id);
    assert(t.len() == s.len() + 1);
    assert forall|j: int| 0 <= j < t.len() implies #[trigger] t[j] == (if j < k {
        s[j]
    } else if j == k {
        id
    } else {
        s[j - 1]
    }) by {}
    assert forall|i: int, j: int| 0 <= i <= j < t.len() implies t[i] <= t[j] by {
        assert(t[i] == (if i < k { s[i] } else if i == k { id } else { s[i - 1] }));
        assert(t[j] == (if j < k { s[j] } else if j == k { id } else { s[j - 1] }));
        if i < k && j > k {
            assert(s[i] <= id);
        }
    }
    assert(t.remove(k) =~= s);
    t.to_multiset_ensures();
    assert(t[k] == id);
    assert(t.contains(id));
    assert(t.to_multiset().count(id) > 0);
    assert(t.to_multiset() =~= s.to_multiset().insert(id));
}

/// Taking a workspace out keeps the ids in order, and takes out exactly one
/// of that id where there is one.
pub proof fn law_remove_keeps_order(s: Seq<u32>, id: u32)
    requires
        sorted(s),
    ensures
        sorted(without_workspace(s, id)),
        s.contains(id) ==> without_workspace(s, id).to_multiset() == s.to_multiset().remove(id),
        !s.contains(id) ==> without_workspace(s, id) == s,
{
    lemma_index_of(s, id);
    match index_of(s, id) {
        Some(k) => {
            let t = s.remove(k);
            assert forall|i: int, j: int| 0 <= i <= j < t.len() implies t[i] <= t[j] by {
                let i2 = if i < k { i } else { i + 1 };
                let j2 = if j < k { j } else { j + 1 };
                assert(s[i2] <= s[j2]);
            }
            s.to_multiset_ensures();
        },
        None => {},
    }
}

/// Taking out a workspace that was just added gives back the ids as they
/// were.
pub proof fn law_remove_undoes_add(s: Seq<u32>, id: u32)
    requires
        sorted(s),
    ensures
        without_workspace(with_workspace(s, id), id) == s,
{
    lemma_insert_position(s, id);
    let k = insert_position(s, id);
    let t = with_workspace(s, id);
    assert(t[k] == id);
    lemma_index_of(t, id);
    let f = index_of(t, id)->0;
    assert(f <= k);
    assert forall|j: int| f <= j < k implies #[trigger] s[j] == id by {
        assert(t[f] == id);
        assert(t[j] == s[j]);
        assert(s[f] <= s[j]);
    }
    assert(t.remove(f) =~= s);
}

/// The window titles whose windows the bar closes as soon as they open.
pub open spec fn autokill_titles() -> Seq<Seq<char>> {
    seq!["Update - Sublime Text"@, "Update - Sublime Merge"@]
}

/// Whether a window titled `title` is closed as soon as it opens.
pub fn is_autokill(title: &str) -> (r: bool)
    ensures
        r == autokill_titles().contains(title@),
{
    let chars = chars_of(title);
    let r = chars_eq_str(chars.as_slice(), "Update - Sublime Text") || chars_eq_str(
        chars.as_slice(),
        "Update - Sublime Merge",
    );
    proof {
        if r {
            if title@ == autokill_titles()[0] {
                assert(autokill_titles().contains(title@));
            } else {
                assert(autokill_titles()[1] == title@);
            }
        } else {
            assert forall|i: int| 0 <= i < autokill_titles().len() implies autokill_titles()[i]
                != title@ by {}
        }
    }
    r
}

/// What the bar does after the workspace strip took in an event.
/// `S` is the type of texts: `String`, or `Seq<char>` in specifications.
#[derive(Debug)]
pub enum StripAction<S = String> {
    /// Nothing to do.
    Nothing,
    /// Take the active mark off the button at `previous` and put it on the
    /// button at `current`, each where there is one.
    Activate { previous: Option<usize>, current: Option<usize> },
    /// Show the window title with this markup (as text and as tooltip).
    ShowWindow { markup: S },
    /// Hide the window title.
    HideWindow,
    /// Add a button for workspace `id` at position `index`.
    AddButton { index: usize, id: u32 },
    /// Remove the button at position `index`.
    RemoveButton { index: usize },
    /// Close the window at `address`.
    CloseWindow { address: WindowAddress },
}

impl View for StripAction {
    type V = StripAction<Seq<char>>;

    open spec fn view(&self) -> StripAction<Seq<char>> {
        match self {
            StripAction::Nothing => StripAction::Nothing,
            StripAction::Activate { previous, current } => StripAction::Activate {
                previous: *previous,
                current: *current,
            },
            StripAction::ShowWindow { markup } => StripAction::ShowWindow { markup: markup@ },
            StripAction::HideWindow => StripAction::HideWindow,
            StripAction::AddButton { index, id } => StripAction::AddButton { index: *index, id: *id },
            StripAction::RemoveButton { index } => StripAction::RemoveButton { index: *index },
            StripAction::CloseWindow { address } => StripAction::CloseWindow { address: *address },
        }
    }
}

/// An index of the specifications as an index of the program.
pub open spec fn as_index(k: Option<int>) -> Option<usize> {
    match k {
        Some(i) => Some(i as usize),
        None => None,
    }
}

/// What the window title shows for the window of class `class` titled
/// `title`: nothing for an empty title.
pub open spec fn spec_window_action(
    class: Seq<char>,
    title: Seq<char>,
    rules: Seq<(Seq<char>, Seq<char>)>,
) -> StripAction<Seq<char>> {
    if title.len() == 0 {
        StripAction::HideWindow
    } else {
        StripAction::ShowWindow { markup: spec_format_window(class, title, rules) }
    }
}

/// One step of the workspace strip: from its ids and active workspace and an
/// event, the new ids, the new active workspace and what the bar does.
pub open spec fn spec_strip_step(
    ids: Seq<u32>,
    active: Option<u32>,
    event: Event<Seq<char>>,
    rules: Seq<(Seq<char>, Seq<char>)>,
) -> (Seq<u32>, Option<u32>, StripAction<Seq<char>>) {
    match event {
        Event::WorkspaceV2(Workspace::Regular { id, .. }) => (
            ids,
            Some(id),
            StripAction::Activate {
                previous: match active {
                    Some(a) => as_index(index_of(ids, a)),
                    None => None,
                },
                current: as_index(index_of(ids, id)),
            },
        ),
        Event::ActiveWindow { class, title } => (
            ids,
            active,
            spec_window_action(class, title, rules),
        ),
        Event::CreateWorkspaceV2(Workspace::Regular { id, .. }) => (
            with_workspace(ids, id),
            active,
            StripAction::AddButton { index: insert_position(ids, id) as usize, id },
        ),
        Event::DestroyWorkspaceV2(Workspace::Regular { id, .. }) => (
            without_workspace(ids, id),
            active,
            match index_of(ids, id) {
                Some(k) => StripAction::RemoveButton { index: k as usize },
                None => StripAction::Nothing,
            },
        ),
        Event::OpenWindow { address, title, .. } => (
            ids,
            active,
            if autokill_titles().contains(title) {
                StripAction::CloseWindow { address }
            } else {
                StripAction::Nothing
            },
        ),
        _ => (ids, active, StripAction::Nothing),
    }
}

/// What the window title shows for the window of class `class` titled
/// `title`.
pub fn window_action(class: &str, title: &str, rules: &Vec<TitleRewrite>) -> (r: StripAction)
    ensures
        r@ == spec_window_action(class@, title@, rule_texts(rules@)),
{
    if title.unicode_len() == 0 {
        StripAction::HideWindow
    } else {
        StripAction::ShowWindow { markup: format_window(class, title, rules) }
    }
}

/// The first index where `ids` holds `id`.
fn find_index(ids: &Vec<u32>, id: u32) -> (r: Option<usize>)
    ensures
        r == as_index(index_of(ids@, id)),
{
    let mut i: usize = 0;
    while i < ids.len()
        invariant
            i <= ids@.len(),
            index_of(ids@, id) == index_of_from(ids@, id, i as int),
        decreases ids.len() - i,
    {
        if ids[i] == id {
            return Some(i);
        }
        i = i + 1;
    }
    None
}

/// Where a workspace `id` goes among `ids`.
fn find_insert_position(ids: &Vec<u32>, id: u32) -> (r: usize)
    ensures
        r == insert_position(ids@, id),
{
    let mut i: usize = 0;
    while i < ids.len()
        invariant
            i <= ids@.len(),
            insert_position(ids@, id) == insert_position_from(ids@, id, i as int),
        decreases ids.len() - i,
    {
        if ids[i] > id {
            return i;
        }
        i = i + 1;
    }
    i
}

/// The ids of the regular workspaces among `ids`, each added in turn.
pub open spec fn strip_ids(ids: Seq<i32>) -> Seq<u32>
    decreases ids.len(),
{
    if ids.len() == 0 {
        seq![]
    } else {
        let before = strip_ids(ids.drop_last());
        if ids.last() >= 0 {
            with_workspace(before, ids.last() as u32)
        } else {
            before
        }
    }
}

/// The workspace strip: the ids of its buttons in order, and the active
/// workspace.
#[derive(Debug)]
pub struct WorkspaceStrip {
    pub ids: Vec<u32>,
    pub active: Option<u32>,
}

impl WorkspaceStrip {
    /// The invariant of the strip: its ids are in order.
    pub open spec fn wf(&self) -> bool {
        sorted(self.ids@)
    }

    /// The strip for the workspaces `workspace_ids` (those with a negative id
    /// get no button), with `active_id` active when it is not negative.
    pub fn start(workspace_ids: &[i32], active_id: i32) -> (r: Self)
        ensures
            r.wf(),
            r.ids@ == strip_ids(workspace_ids@),
            r.active == (if active_id >= 0 {
                Some(active_id as u32)
            } else {
                None
            }),
    {
        let mut strip = WorkspaceStrip { ids: Vec::new(), active: None };
        let mut i: usize = 0;
        while i < workspace_ids.len()
            invariant
                i <= workspace_ids@.len(),
                strip.wf(),
                strip.ids@ == strip_ids(workspace_ids@.take(i as int)),
                strip.active is None,
            decreases workspace_ids.len() - i,
        {
            assert(workspace_ids@.take(i + 1).drop_last() =~= workspace_ids@.take(i as int));
            let id = workspace_ids[i];
            if id >= 0 {
                strip.add_workspace(id as u32);
            }
            i = i + 1;
        }
        assert(workspace_ids@.take(i as int) =~= workspace_ids@);
        strip.active = if active_id >= 0 {
            Some(active_id as u32)
        } else {
            None
        };
        strip
    }

    /// Adds a button for workspace `id` at its place; returns that place.
    pub fn add_workspace(&mut self, id: u32) -> (index: usize)
        requires
            old(self).wf(),
        ensures
            final(self).wf(),
            index == insert_position(old(self).ids@, id),
            final(self).ids@ == with_workspace(old(self).ids@, id),
            final(self).active == old(self).active,
    {
        proof {
            law_add_keeps_order(self.ids@, id);
            lemma_insert_position(self.ids@, id);
        }
        let index = find_insert_position(&self.ids, id);
        self.ids.insert(index, id);
        index
    }

    /// The position of the active workspace's button, if it has one.
    pub fn active_index(&self) -> (r: Option<usize>)
        ensures
            r == match self.active {
                Some(a) => as_index(index_of(self.ids@, a)),
                None => None,
            },
    {
        match self.active {
            Some(a) => find_index(&self.ids, a),
            None => None,
        }
    }

    /// Takes in an event of the compositor: moves the active mark, adds or
    /// removes a button, shows the focused window's title, or closes a window
    /// that is to be closed at once.
    pub fn handle_message(&mut self, event: Event, rules: &Vec<TitleRewrite>) -> (action: StripAction)
        requires
            old(self).wf(),
        ensures
            final(self).wf(),
            final(self).ids@ == spec_strip_step(
                old(self).ids@,
                old(self).active,
                event@,
                rule_texts(rules@),
            ).0,
            final(self).active == spec_strip_step(
                old(self).ids@,
                old(self).active,
                event@,
                rule_texts(rules@),
            ).1,
            action@ == spec_strip_step(
                old(self).ids@,
                old(self).active,
                event@,
                rule_texts(rules@),
            ).2,
    {
        match event {
            Event::WorkspaceV2(Workspace::Regular { id, .. }) => {
                let previous = self.active_index();
                let current = find_index(&self.ids, id);
                self.active = Some(id);
                StripAction::Activate { previous, current }
            },
            Event::ActiveWindow { class, title } => window_action(
                class.as_str(),
                title.as_str(),
                rules,
            ),
            Event::CreateWorkspaceV2(Workspace::Regular { id, .. }) => {
                let index = self.add_workspace(id);
                StripAction::AddButton { index, id }
            },
            Event::DestroyWorkspaceV2(Workspace::Regular { id, .. }) => {
                proof {
                    law_remove_keeps_order(self.ids@, id);
                    lemma_index_of(self.ids@, id);
                }
                match find_index(&self.ids, id) {
                    Some(index) => {
                        self.ids.remove(index);
                        assert(self.ids@ == without_workspace(old(self).ids@, id));
                        StripAction::RemoveButton { index }
                    },
                    None => {
                        assert(self.ids@ == without_workspace(old(self).ids@, id));
                        StripAction::Nothing
                    },
                }
            },
            Event::OpenWindow { address, title, .. } => {
                if is_autokill(title.as_str()) {
                    StripAction::CloseWindow { address }
                } else {
                    StripAction::Nothing
                }
            },
            _ => StripAction::Nothing,
        }
    }
}

} // verus!
