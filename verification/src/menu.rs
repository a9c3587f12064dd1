//! The menus that tray items export: their tree of items, turned into a
//! menu of sections (split at separators), with the action of each item.

use vstd::prelude::*;

use crate::text::{chars_eq_str, chars_of};

verus! {

/// An item of an exported menu, with the properties the bar reads.
#[derive(Debug)]
pub struct MenuNode {
    pub id: i32,
    /// The `type` property: absent for a standard item.
    pub kind: Option<String>,
    pub label: Option<String>,
    pub icon_name: Option<String>,
    /// The `visible` property, where it is given.
    pub visible: Option<bool>,
    /// The `enabled` property, where it is given.
    pub enabled: Option<bool>,
    /// The `children-display` property, where it is given.
    pub children_display: Option<String>,
    pub children: Vec<MenuNode>,
}

/// An entry of a built menu.
#[derive(Debug)]
pub struct MenuEntry {
    /// The id of the item, which names its action.
    pub id: i32,
    pub label: String,
    pub icon_name: Option<String>,
    /// Whether its action can be activated.
    pub enabled: bool,
    pub submenu: Option<Menu>,
}

/// A built menu: its sections, each a list of entries.
#[derive(Debug)]
pub struct Menu {
    pub sections: Vec<Vec<MenuEntry>>,
}

/// What an entry of a built menu stands for.
pub struct EntryModel {
    pub id: i32,
    pub label: Seq<char>,
    pub icon_name: Option<Seq<char>>,
    pub enabled: bool,
    pub submenu: Option<MenuModel>,
}

/// What a built menu stands for.
pub struct MenuModel {
    pub sections: Seq<Seq<EntryModel>>,
}

/// The view of an optional text.
pub open spec fn text_view(s: Option<String>) -> Option<Seq<char>> {
    match s {
        Some(t) => Some(t@),
        None => None,
    }
}

/// Whether the item is a separator.
pub open spec fn is_separator(n: MenuNode) -> bool {
    n.kind matches Some(k) && k@ == "separator"@
}

/// Whether the item is a standard item that is not hidden.
pub open spec fn is_shown_item(n: MenuNode) -> bool {
    n.kind is None && n.visible != Some(false)
}

/// Whether the item has a submenu.
pub open spec fn has_submenu(n: MenuNode) -> bool {
    n.children_display is Some
}

/// The sections built from the items `cs`: a separator starts a new
/// section, a shown item is added to the last one, a hidden item is left
/// out.
pub open spec fn model_sections(cs: Seq<MenuNode>) -> Seq<Seq<EntryModel>>
    decreases cs, 0nat,
{
    if cs.len() == 0 {
        seq![seq![]]
    } else {
        let prev = model_sections(cs.drop_last());
        let c = cs[cs.len() - 1];
        if is_separator(c) {
            prev.push(seq![])
        } else if is_shown_item(c) {
            prev.update(prev.len() - 1, prev[prev.len() - 1].push(model_entry(c)))
        } else {
            prev
        }
    }
}

/// The entry built from the shown item `n`.
pub open spec fn model_entry(n: MenuNode) -> EntryModel
    decreases n, 2nat,
{
    EntryModel {
        id: n.id,
        label: match n.label {
            Some(l) => l@,
            None => seq![],
        },
        icon_name: text_view(n.icon_name),
        enabled: n.enabled != Some(false),
        submenu: if has_submenu(n) {
            Some(model_menu(n))
        } else {
            None
        },
    }
}

/// The menu built from the children of `n`.
pub open spec fn model_menu(n: MenuNode) -> MenuModel
    decreases n, 1nat,
{
    MenuModel { sections: model_sections(n.children@) }
}

/// The actions made for the items `cs` and, for shown items, for their
/// submenus: an item's id, and whether its action can be activated.
pub open spec fn model_actions(cs: Seq<MenuNode>) -> Seq<(i32, bool)>
    decreases cs,
{
    if cs.len() == 0 {
        seq![]
    } else {
        let prev = model_actions(cs.drop_last());
        let c = cs[cs.len() - 1];
        if is_separator(c) {
            prev
        } else if !is_shown_item(c) {
            prev.push((c.id, true))
        } else if has_submenu(c) {
            prev.push((c.id, c.enabled != Some(false))) + model_actions(c.children@)
        } else {
            prev.push((c.id, c.enabled != Some(false)))
        }
    }
}

/// Whether the item `c` can be built: a separator, or a standard item with
/// a label whose children, when it is shown, are displayed as a submenu if
/// at all, and can be built in turn.
pub open spec fn item_buildable(c: MenuNode) -> bool
    decreases c, 1nat,
{
    is_separator(c) || (c.kind is None && c.label is Some && (c.visible != Some(false) ==> match c.children_display {
        None => true,
        Some(d) => d@ == "submenu"@ && buildable(c.children@),
    }))
}

/// Whether each of the items `cs` can be built.
pub open spec fn buildable(cs: Seq<MenuNode>) -> bool
    decreases cs, 0nat,
{
    if cs.len() == 0 {
        true
    } else {
        buildable(cs.drop_last()) && item_buildable(cs[cs.len() - 1])
    }
}

/// What the built menu `m` stands for.
pub open spec fn menu_view(m: Menu) -> MenuModel
    decreases m,
{
    MenuModel { sections: sections_view(m.sections@) }
}

/// What the sections `s` stand for.
pub open spec fn sections_view(s: Seq<Vec<MenuEntry>>) -> Seq<Seq<EntryModel>>
    decreases s,
{
    if s.len() == 0 {
        seq![]
    } else {
        sections_view(s.drop_last()).push(entries_view(s[s.len() - 1]@))
    }
}

/// What the entries `es` stand for.
pub open spec fn entries_view(es: Seq<MenuEntry>) -> Seq<EntryModel>
    decreases es,
{
    if es.len() == 0 {
        seq![]
    } else {
        entries_view(es.drop_last()).push(entry_view(es[es.len() - 1]))
    }
}

/// What the entry `e` stands for.
pub open spec fn entry_view(e: MenuEntry) -> EntryModel
    decreases e,
{
    EntryModel {
        id: e.id,
        label: e.label@,
        icon_name: text_view(e.icon_name),
        enabled: e.enabled,
        submenu: match e.submenu {
            Some(m) => Some(menu_view(m)),
            None => None,
        },
    }
}

proof fn lemma_buildable_at(cs: Seq<MenuNode>, i: int)
    requires
        buildable(cs),
        0 <= i < cs.len(),
    ensures
        item_buildable(cs[i]),
    decreases cs.len(),
{
    if i < cs.len() - 1 {
        lemma_buildable_at(cs.drop_last(), i);
        assert(cs.drop_last()[i] == cs[i]);
    }
}

/// What building one item gives.
#[derive(Debug)]
pub enum BuiltItem {
    Item(MenuEntry),
    Separator,
}

fn copy_text(s: &Option<String>) -> (r: Option<String>)
    ensures
        text_view(r) == text_view(*s),
{
    match s {
        Some(t) => Some(t.as_str().to_owned()),
        None => None,
    }
}

fn is_separator_exec(n: &MenuNode) -> (r: bool)
    ensures
        r == is_separator(*n),
{
    match &n.kind {
        Some(k) => {
            let c = chars_of(k.as_str());
            chars_eq_str(c.as_slice(), "separator")
        },
        None => false,
    }
}

impl MenuNode {
    /// Builds the item: a separator, an entry (with its submenu), or nothing
    /// for a hidden item. Each standard item gets an action, recorded in
    /// `actions` with whether it can be activated, before its submenu's.
    pub fn build_menuitem(&self, actions: &mut Vec<(i32, bool)>) -> (r: Option<BuiltItem>)
        requires
            item_buildable(*self),
        ensures
            is_separator(*self) ==> (r matches Some(BuiltItem::Separator) && final(actions)@ == old(actions)@),
            !is_separator(*self) && !is_shown_item(*self) ==> r is None && final(actions)@ == old(
                actions,
            )@.push((self.id, true)),
            is_shown_item(*self) ==> (r matches Some(BuiltItem::Item(e)) && entry_view(e) == model_entry(
                *self,
            ) && final(actions)@ == if has_submenu(*self) {
                old(actions)@.push((self.id, self.enabled != Some(false))) + model_actions(
                    self.children@,
                )
            } else {
                old(actions)@.push((self.id, self.enabled != Some(false)))
            }),
        decreases *self, 1nat,
    {
        if is_separator_exec(self) {
            return Some(BuiltItem::Separator);
        }
        let label = match &self.label {
            Some(l) => l.as_str().to_owned(),
            None => {
                assert(false);
                String::new()
            },
        };
        let icon_name = copy_text(&self.icon_name);
        if self.visible == Some(false) {
            actions.push((self.id, true));
            return None;
        }
        let enabled = self.enabled != Some(false);
        actions.push((self.id, enabled));
        let submenu = match &self.children_display {
            Some(_) => Some(self.build_menu(actions)),
            None => None,
        };
        Some(BuiltItem::Item(MenuEntry { id: self.id, label, icon_name, enabled, submenu }))
    }

    /// Builds the menu of this item's children: a separator starts a new
    /// section, a shown item is added to the last one. The actions of the
    /// items are recorded in `actions`.
    pub fn build_menu(&self, actions: &mut Vec<(i32, bool)>) -> (r: Menu)
        requires
            buildable(self.children@),
        ensures
            menu_view(r) == model_menu(*self),
            final(actions)@ == old(actions)@ + model_actions(self.children@),
        decreases *self, 0nat,
    {
        let mut sections: Vec<Vec<MenuEntry>> = Vec::new();
        let mut current: Vec<MenuEntry> = Vec::new();
        let mut i: usize = 0;
        let ghost cs = self.children@;
        assert(cs.take(0) =~= Seq::<MenuNode>::empty());
        assert(sections_view(sections@).push(entries_view(current@)) =~= model_sections(cs.take(0)));
        assert(old(actions)@ + model_actions(cs.take(0)) =~= old(actions)@);
        while i < self.children.len()
            invariant
                i <= cs.len(),
                cs == self.children@,
                buildable(cs),
                sections_view(sections@).push(entries_view(current@)) == model_sections(cs.take(i as int)),
                actions@ == old(actions)@ + model_actions(cs.take(i as int)),
            decreases self.children.len() - i,
        {
            let ghost before_actions = actions@;
            assert(cs.take(i + 1).drop_last() =~= cs.take(i as int));
            assert(cs.take(i + 1)[i as int] == cs[i as int]);
            proof {
                lemma_buildable_at(cs, i as int);
            }
            let built = self.children[i].build_menuitem(actions);
            let ghost prev_model = sections_view(sections@).push(entries_view(current@));
            match built {
                Some(BuiltItem::Item(entry)) => {
                    let ghost prev_current = current@;
                    let ghost ev = entry_view(entry);
                    current.push(entry);
                    assert(current@.drop_last() =~= prev_current);
                    assert(entries_view(current@) == entries_view(prev_current).push(ev));
                    assert(sections_view(sections@).push(entries_view(current@)) =~= prev_model.update(
                        prev_model.len() - 1,
                        prev_model[prev_model.len() - 1].push(ev),
                    ));
                },
                Some(BuiltItem::Separator) => {
                    let ghost prev_sections = sections@;
                    let ghost prev_current = current@;
                    sections.push(current);
                    current = Vec::new();
                    assert(sections@.drop_last() =~= prev_sections);
                    assert(entries_view(current@) =~= Seq::<EntryModel>::empty());
                },
                None => {},
            }
            proof {
                let c = cs[i as int];
                assert(model_sections(cs.take(i + 1)) =~= {
                    let prev = model_sections(cs.take(i as int));
                    if is_separator(c) {
                        prev.push(seq![])
                    } else if is_shown_item(c) {
                        prev.update(prev.len() - 1, prev[prev.len() - 1].push(model_entry(c)))
                    } else {
                        prev
                    }
                });
                assert(model_actions(cs.take(i + 1)) =~= {
                    let prev = model_actions(cs.take(i as int));
                    if is_separator(c) {
                        prev
                    } else if !is_shown_item(c) {
                        prev.push((c.id, true))
                    } else if has_submenu(c) {
                        prev.push((c.id, c.enabled != Some(false))) + model_actions(c.children@)
                    } else {
                        prev.push((c.id, c.enabled != Some(false)))
                    }
                });
            }
            assert(actions@ =~= old(actions)@ + model_actions(cs.take(i + 1)));
            assert(sections_view(sections@).push(entries_view(current@)) =~= model_sections(cs.take(i + 1)));
            i = i + 1;
        }
        let ghost prev_sections = sections@;
        sections.push(current);
        assert(sections@.drop_last() =~= prev_sections);
        assert(cs.take(i as int) =~= cs);
        Menu { sections }
    }
}

} // verus!
