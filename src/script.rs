//! The statements a script is made of, and their mathematical views.
use vstd::prelude::*;

verus! {

/// A position on the stage, as a script names it.
#[derive(Clone, Copy, Debug, PartialEq, Eq, Structural)]
pub enum Location {
    Left,
    CenterLeft,
    Center,
    CenterRight,
    Right,
    Off,
}

/// A speaking character: its display name and its color.
#[derive(Debug)]
pub struct Character {
    pub name: String,
    pub color: String,
}

pub struct CharacterView {
    pub name: Seq<char>,
    pub color: Seq<char>,
}

impl View for Character {
    type V = CharacterView;

    open spec fn view(&self) -> CharacterView {
        CharacterView { name: self.name@, color: self.color@ }
    }
}

impl Character {
    pub fn duplicate(&self) -> (r: Character)
        ensures
            r@ == self@,
    {
        Character { name: self.name.clone(), color: self.color.clone() }
    }
}

/// One fact taken from a script line.
#[derive(Debug)]
pub enum ParseStatement {
    Definition { key: String, character: Character },
    Label { key: String },
    Dialogue { character_key: String, text: String },
    Menu {},
    Choice { text: String },
    Jump { key: String },
    End {},
    Show { key: String, location: Location },
    StageDirection { location: Location },
    Scene {},
}

pub enum StatementView {
    Definition { key: Seq<char>, character: CharacterView },
    Label { key: Seq<char> },
    Dialogue { character_key: Seq<char>, text: Seq<char> },
    Menu,
    Choice { text: Seq<char> },
    Jump { key: Seq<char> },
    End,
    Show { key: Seq<char>, location: Location },
    StageDirection { location: Location },
    Scene,
}

impl View for ParseStatement {
    type V = StatementView;

    open spec fn view(&self) -> StatementView {
        match self {
            ParseStatement::Definition { key, character } => StatementView::Definition {
                key: key@,
                character: character@,
            },
            ParseStatement::Label { key } => StatementView::Label { key: key@ },
            ParseStatement::Dialogue { character_key, text } => StatementView::Dialogue {
                character_key: character_key@,
                text: text@,
            },
            ParseStatement::Menu {  } => StatementView::Menu,
            ParseStatement::Choice { text } => StatementView::Choice { text: text@ },
            ParseStatement::Jump { key } => StatementView::Jump { key: key@ },
            ParseStatement::End {  } => StatementView::End,
            ParseStatement::Show { key, location } => StatementView::Show {
                key: key@,
                location: *location,
            },
            ParseStatement::StageDirection { location } => StatementView::StageDirection {
                location: *location,
            },
            ParseStatement::Scene {  } => StatementView::Scene,
        }
    }
}

/// A classified statement with the indentation of its source line.
#[derive(Debug)]
pub struct ParseLogicalLine {
    pub indent: usize,
    pub statement: ParseStatement,
}

pub struct LineView {
    pub indent: nat,
    pub statement: StatementView,
}

impl View for ParseLogicalLine {
    type V = LineView;

    open spec fn view(&self) -> LineView {
        LineView { indent: self.indent as nat, statement: self.statement@ }
    }
}

/// The statements of a sequence of logical lines.
pub open spec fn statements(lines: Seq<ParseLogicalLine>) -> Seq<StatementView> {
    lines.map_values(|l: ParseLogicalLine| l.statement@)
}

/// The texts of a sequence of strings.
pub open spec fn texts(v: Seq<String>) -> Seq<Seq<char>> {
    v.map_values(|s: String| s@)
}

} // verus!
