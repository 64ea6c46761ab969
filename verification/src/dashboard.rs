//! Dashboards: which tiles a module declares.

use vstd::prelude::*;

verus! {

/// What a tile shows: one figure, a chart, a list, or a table.
#[derive(Clone, Copy, Debug, PartialEq, Eq, Structural)]
pub enum WidgetKind {
    Stat,
    Chart,
    List,
    Table,
}

/// A tile that a module declares.
#[derive(Clone, Copy, Debug)]
pub struct WidgetDefinition {
    pub name: &'static str,
    pub dashboard: &'static str,
    pub title: &'static str,
    pub description: &'static str,
    pub kind: WidgetKind,
    pub permission: &'static str,
    /// Its place on a fresh dashboard; nothing where it is only on offer.
    pub default_position: Option<u8>,
}

/// What a declared tile says.
pub struct Declared {
    pub name: Seq<char>,
    pub dashboard: Seq<char>,
    pub title: Seq<char>,
    pub description: Seq<char>,
    pub kind: WidgetKind,
    pub permission: Seq<char>,
    pub default_position: Option<u8>,
}

impl View for WidgetDefinition {
    type V = Declared;

    open spec fn view(&self) -> Declared {
        Declared {
            name: self.name@,
            dashboard: self.dashboard@,
            title: self.title@,
            description: self.description@,
            kind: self.kind,
            permission: self.permission@,
            default_position: self.default_position,
        }
    }
}

pub open spec fn all_declared(list: Seq<WidgetDefinition>) -> Seq<Declared> {
    list.map_values(|w: WidgetDefinition| w@)
}

} // verus!
