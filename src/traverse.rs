//! The narrative traversal: logical lines to the ordered list of slides.
use vstd::prelude::*;
use crate::classify::{first_piece, first_piece_exec};
use crate::script::{
    Character, CharacterView, Location, ParseLogicalLine, ParseStatement, StatementView,
    statements,
};
use crate::text::{chars_of, equal_chars};

verus! {

/// One option of a menu slide: its text and the label it leads to.
#[derive(Debug)]
pub struct MenuChoice {
    pub text: String,
    pub jump_key: String,
}

pub struct ChoiceView {
    pub text: Seq<char>,
    pub jump_key: Seq<char>,
}

impl View for MenuChoice {
    type V = ChoiceView;

    open spec fn view(&self) -> ChoiceView {
        ChoiceView { text: self.text@, jump_key: self.jump_key@ }
    }
}

/// The body of a slide.
#[derive(Debug)]
pub enum PageText {
    Dialogue { character_name: String, text: String },
    Menu { character_name: String, text: String, choices: Vec<MenuChoice> },
}

pub enum PageTextView {
    Dialogue { character_name: Seq<char>, text: Seq<char> },
    Menu { character_name: Seq<char>, text: Seq<char>, choices: Seq<ChoiceView> },
}

pub open spec fn choice_views(v: Seq<MenuChoice>) -> Seq<ChoiceView> {
    v.map_values(|c: MenuChoice| c@)
}

impl View for PageText {
    type V = PageTextView;

    open spec fn view(&self) -> PageTextView {
        match self {
            PageText::Dialogue { character_name, text } => PageTextView::Dialogue {
                character_name: character_name@,
                text: text@,
            },
            PageText::Menu { character_name, text, choices } => PageTextView::Menu {
                character_name: character_name@,
                text: text@,
                choices: choice_views(choices@),
            },
        }
    }
}

/// One slide: the line it came from, the label that names it, its body, the characters
/// on the five stage slots, the label it leads to, and whether it ends the story.
#[derive(Debug)]
pub struct Page {
    pub index: usize,
    pub label: Option<String>,
    pub text: PageText,
    pub images: Vec<Option<String>>,
    pub unconditional_jump: Option<String>,
    pub end: bool,
}

pub struct PageView {
    pub index: nat,
    pub label: Option<Seq<char>>,
    pub text: PageTextView,
    pub images: Seq<Option<Seq<char>>>,
    pub jump: Option<Seq<char>>,
    pub end: bool,
}

pub open spec fn opt_view(o: Option<String>) -> Option<Seq<char>> {
    match o {
        Some(s) => Some(s@),
        None => None,
    }
}

pub open spec fn stage_view(v: Seq<Option<String>>) -> Seq<Option<Seq<char>>> {
    v.map_values(|o: Option<String>| opt_view(o))
}

impl View for Page {
    type V = PageView;

    open spec fn view(&self) -> PageView {
        PageView {
            index: self.index as nat,
            label: opt_view(self.label),
            text: self.text@,
            images: stage_view(self.images@),
            jump: opt_view(self.unconditional_jump),
            end: self.end,
        }
    }
}

pub open spec fn page_views(v: Seq<Page>) -> Seq<PageView> {
    v.map_values(|p: Page| p@)
}

/// Why the traversal stops without a deck.
#[derive(Clone, Copy, Debug, PartialEq, Eq, Structural)]
pub enum TraverseError {
    /// Dialogue names a character key that no definition gives.
    UnknownCharacter,
    /// Inside a menu, a jump comes before any choice.
    JumpWithoutChoice,
    /// The script ends inside a menu.
    UnterminatedMenu,
}

// ---------------------------------------------------------------------------------------
// The character registry.

/// The definitions among the statements, in order, as (key, character) pairs.
pub open spec fn definitions(st: Seq<StatementView>) -> Seq<(Seq<char>, CharacterView)>
    decreases st.len(),
{
    if st.len() == 0 {
        Seq::empty()
    } else {
        let d = definitions(st.drop_last());
        match st.last() {
            StatementView::Definition { key, character } => d.push((key, character)),
            _ => d,
        }
    }
}

/// The character of the last entry below `j` with this key.
pub open spec fn lookup_below(
    defs: Seq<(Seq<char>, CharacterView)>,
    key: Seq<char>,
    j: int,
) -> Option<CharacterView>
    decreases j,
{
    if j <= 0 || j > defs.len() {
        None
    } else if defs[j - 1].0 == key {
        Some(defs[j - 1].1)
    } else {
        lookup_below(defs, key, j - 1)
    }
}

/// The character a key names: the one given by its last definition.
pub open spec fn lookup(defs: Seq<(Seq<char>, CharacterView)>, key: Seq<char>) -> Option<
    CharacterView,
> {
    lookup_below(defs, key, defs.len() as int)
}

/// The characters of a script, by key.
pub struct CharacterRegistry {
    pub entries: Vec<(String, Character)>,
}

impl View for CharacterRegistry {
    type V = Seq<(Seq<char>, CharacterView)>;

    open spec fn view(&self) -> Seq<(Seq<char>, CharacterView)> {
        self.entries@.map_values(|e: (String, Character)| (e.0@, e.1@))
    }
}

impl CharacterRegistry {
    /// Collects every definition of the lines.
    pub fn build(lines: &Vec<ParseLogicalLine>) -> (r: CharacterRegistry)
        ensures
            r@ == definitions(statements(lines@)),
    {
        let mut r = CharacterRegistry { entries: Vec::new() };
        let mut i: usize = 0;
        assert(statements(lines@).take(0) =~= Seq::<StatementView>::empty());
        assert(r@ =~= Seq::<(Seq<char>, CharacterView)>::empty());
        while i < lines.len()
            invariant
                i <= lines@.len(),
                r@ == definitions(statements(lines@).take(i as int)),
            decreases lines@.len() - i,
        {
            let ghost before = r@;
            assert(statements(lines@).take(i + 1).drop_last() =~= statements(lines@).take(
                i as int,
            ));
            match &lines[i].statement {
                ParseStatement::Definition { key, character } => {
                    r.entries.push((key.clone(), character.duplicate()));
                    assert(r@ =~= before.push((key@, character@)));
                },
                _ => {},
            }
            i += 1;
        }
        assert(statements(lines@).take(i as int) =~= statements(lines@));
        r
    }

    /// The display name of the character a key names.
    pub fn name_of(&self, key: &String) -> (r: Option<String>)
        ensures
            r matches Some(n) ==> lookup(self@, key@) matches Some(c) && n@ == c.name,
            r is None ==> lookup(self@, key@) is None,
    {
        let mut j: usize = self.entries.len();
        while j > 0
            invariant
                j <= self@.len(),
                self@.len() == self.entries@.len(),
                lookup(self@, key@) == lookup_below(self@, key@, j as int),
            decreases j,
        {
            if self.entries[j - 1].0 == *key {
                return Some(self.entries[j - 1].1.name.clone());
            }
            j -= 1;
        }
        None
    }
}

// ---------------------------------------------------------------------------------------
// The stage.

/// The primary name of a character key: its first space-separated word, so that
/// variants of one character (`alice happy`, `alice sad`) share it.
pub open spec fn primary_name(key: Seq<char>) -> Seq<char> {
    first_piece(key, " "@)
}

/// The stage with every slot holding a character of the same primary name emptied.
pub open spec fn clear_same(stage: Seq<Option<Seq<char>>>, key: Seq<char>) -> Seq<
    Option<Seq<char>>,
> {
    Seq::new(
        stage.len(),
        |i: int|
            match stage[i] {
                Some(c) => if primary_name(c) == primary_name(key) {
                    None
                } else {
                    Some(c)
                },
                None => None,
            },
    )
}

/// The slot a position stands for, from far left (0) to far right (4); none off stage.
pub open spec fn slot_of(location: Location) -> Option<int> {
    match location {
        Location::Left => Some(0),
        Location::CenterLeft => Some(1),
        Location::Center => Some(2),
        Location::CenterRight => Some(3),
        Location::Right => Some(4),
        Location::Off => None,
    }
}

/// The stage once a character is shown at a position.
pub open spec fn show_on(stage: Seq<Option<Seq<char>>>, key: Seq<char>, location: Location) -> Seq<
    Option<Seq<char>>,
> {
    match slot_of(location) {
        Some(i) => clear_same(stage, key).update(i, Some(key)),
        None => clear_same(stage, key),
    }
}

/// Five empty slots.
pub open spec fn empty_stage() -> Seq<Option<Seq<char>>> {
    Seq::new(5, |i: int| None)
}


fn primary_name_exec(key: &String) -> (r: Vec<char>)
    ensures
        r@ == primary_name(key@),
{
    first_piece_exec(&chars_of(key.as_str()), " ")
}

fn clone_opt(o: &Option<String>) -> (r: Option<String>)
    ensures
        opt_view(r) == opt_view(*o),
{
    match o {
        Some(s) => Some(s.clone()),
        None => None,
    }
}

/// A copy of the stage.
fn snapshot(stage: &Vec<Option<String>>) -> (r: Vec<Option<String>>)
    ensures
        stage_view(r@) == stage_view(stage@),
{
    let mut r: Vec<Option<String>> = Vec::new();
    let mut i: usize = 0;
    while i < stage.len()
        invariant
            i <= stage@.len(),
            stage_view(r@) == stage_view(stage@).take(i as int),
        decreases stage@.len() - i,
    {
        let c = clone_opt(&stage[i]);
        let ghost before = r@;
        r.push(c);
        assert(r@ =~= before.push(c));
        assert(stage_view(r@) =~= stage_view(before).push(opt_view(c)));
        i += 1;
        assert(stage_view(r@) =~= stage_view(stage@).take(i as int));
    }
    assert(stage_view(stage@).take(i as int) =~= stage_view(stage@));
    r
}

fn empty_stage_exec() -> (r: Vec<Option<String>>)
    ensures
        stage_view(r@) == empty_stage(),
        r@.len() == 5,
{
    let r: Vec<Option<String>> = vec![None, None, None, None, None];
    assert(stage_view(r@) =~= empty_stage());
    r
}

/// Shows a character at a position: first every slot holding a character of the same
/// primary name is emptied, then the key takes the slot of the position (none off stage).
pub fn show_character(stage: &mut Vec<Option<String>>, key: &String, location: Location)
    requires
        old(stage)@.len() == 5,
    ensures
        final(stage)@.len() == old(stage)@.len(),
        stage_view(final(stage)@) == show_on(stage_view(old(stage)@), key@, location),
{
    let name = primary_name_exec(key);
    let ghost start = stage_view(stage@);
    let mut i: usize = 0;
    while i < stage.len()
        invariant
            i <= stage@.len(),
            stage@.len() == start.len(),
            start.len() == 5,
            name@ == primary_name(key@),
            forall|j: int| 0 <= j < i ==> stage_view(stage@)[j] == clear_same(start, key@)[j],
            forall|j: int| i <= j < stage@.len() ==> stage_view(stage@)[j] == start[j],
        decreases stage@.len() - i,
    {
        let same = match &stage[i] {
            Some(c) => equal_chars(&primary_name_exec(c), &name),
            None => false,
        };
        if same {
            stage.set(i, None);
        }
        i += 1;
    }
    assert(stage_view(stage@) =~= clear_same(start, key@));
    match location {
        Location::Left => stage.set(0, Some(key.clone())),
        Location::CenterLeft => stage.set(1, Some(key.clone())),
        Location::Center => stage.set(2, Some(key.clone())),
        Location::CenterRight => stage.set(3, Some(key.clone())),
        Location::Right => stage.set(4, Some(key.clone())),
        Location::Off => {},
    }
    assert(stage_view(stage@) =~= show_on(start, key@, location));
}


// ---------------------------------------------------------------------------------------
// The traversal.

/// What a menu has gathered so far: the prompt's speaker and text, and the choices.
pub struct MenuView {
    pub name: Seq<char>,
    pub text: Seq<char>,
    pub choices: Seq<ChoiceView>,
}

pub open spec fn empty_menu() -> MenuView {
    MenuView { name: Seq::empty(), text: Seq::empty(), choices: Seq::empty() }
}

/// Reads the statements of a menu from `j` on: a choice opens an entry, a jump gives
/// the latest entry its target, dialogue gives the prompt. The first other statement
/// ends the menu; its index comes back with what was gathered.
pub open spec fn scan_menu(
    st: Seq<StatementView>,
    defs: Seq<(Seq<char>, CharacterView)>,
    j: int,
    m: MenuView,
) -> Result<(int, MenuView), TraverseError>
    decreases st.len() - j,
{
    if j < 0 || j >= st.len() {
        Err(TraverseError::UnterminatedMenu)
    } else {
        match st[j] {
            StatementView::Choice { text } => scan_menu(
                st,
                defs,
                j + 1,
                MenuView {
                    name: m.name,
                    text: m.text,
                    choices: m.choices.push(ChoiceView { text, jump_key: Seq::empty() }),
                },
            ),
            StatementView::Jump { key } => if m.choices.len() == 0 {
                Err(TraverseError::JumpWithoutChoice)
            } else {
                scan_menu(
                    st,
                    defs,
                    j + 1,
                    MenuView {
                        name: m.name,
                        text: m.text,
                        choices: m.choices.update(
                            m.choices.len() - 1,
                            ChoiceView { text: m.choices.last().text, jump_key: key },
                        ),
                    },
                )
            },
            StatementView::Dialogue { character_key, text } => match lookup(
                defs,
                character_key,
            ) {
                None => Err(TraverseError::UnknownCharacter),
                Some(c) => scan_menu(
                    st,
                    defs,
                    j + 1,
                    MenuView { name: c.name, text, choices: m.choices },
                ),
            },
            _ => Ok((j, m)),
        }
    }
}

/// Where the traversal stands: the line to dispatch, the slides so far, the label that
/// names the next dialogue slide, and the stage.
pub struct TraversalView {
    pub pos: int,
    pub pages: Seq<PageView>,
    pub pending: Option<Seq<char>>,
    pub stage: Seq<Option<Seq<char>>>,
}

/// The traversal state after dispatching the statement at `t.pos`.
pub open spec fn step(
    st: Seq<StatementView>,
    defs: Seq<(Seq<char>, CharacterView)>,
    t: TraversalView,
) -> Result<TraversalView, TraverseError> {
    if t.pos < 0 || t.pos >= st.len() {
        Ok(t)
    } else {
        match st[t.pos] {
            StatementView::Dialogue { character_key, text } => match lookup(defs, character_key) {
                None => Err(TraverseError::UnknownCharacter),
                Some(c) => Ok(
                    TraversalView {
                        pos: t.pos + 1,
                        pages: t.pages.push(
                            PageView {
                                index: t.pos as nat,
                                label: t.pending,
                                text: PageTextView::Dialogue { character_name: c.name, text },
                                images: t.stage,
                                jump: None,
                                end: false,
                            },
                        ),
                        pending: None,
                        stage: t.stage,
                    },
                ),
            },
            StatementView::Menu => match scan_menu(st, defs, t.pos + 1, empty_menu()) {
                Err(e) => Err(e),
                Ok((j, m)) => Ok(
                    TraversalView {
                        pos: j,
                        pages: t.pages.push(
                            PageView {
                                index: j as nat,
                                label: None,
                                text: PageTextView::Menu {
                                    character_name: m.name,
                                    text: m.text,
                                    choices: m.choices,
                                },
                                images: empty_stage(),
                                jump: None,
                                end: false,
                            },
                        ),
                        pending: None,
                        stage: t.stage,
                    },
                ),
            },
            StatementView::Label { key } => Ok(
                TraversalView { pos: t.pos + 1, pages: t.pages, pending: Some(key), stage: t.stage },
            ),
            StatementView::Jump { key } => Ok(
                TraversalView {
                    pos: t.pos + 1,
                    pages: if t.pages.len() > 0 {
                        t.pages.update(
                            t.pages.len() - 1,
                            PageView {
                                index: t.pages.last().index,
                                label: t.pages.last().label,
                                text: t.pages.last().text,
                                images: t.pages.last().images,
                                jump: Some(key),
                                end: t.pages.last().end,
                            },
                        )
                    } else {
                        t.pages
                    },
                    pending: t.pending,
                    stage: t.stage,
                },
            ),
            StatementView::End => Ok(
                TraversalView {
                    pos: t.pos + 1,
                    pages: t.pages.push(
                        PageView {
                            index: t.pos as nat,
                            label: None,
                            text: PageTextView::Dialogue {
                                character_name: Seq::empty(),
                                text: "End"@,
                            },
                            images: t.stage,
                            jump: None,
                            end: true,
                        },
                    ),
                    pending: t.pending,
                    stage: t.stage,
                },
            ),
            StatementView::Show { key, location } => Ok(
                TraversalView {
                    pos: t.pos + 1,
                    pages: t.pages,
                    pending: t.pending,
                    stage: show_on(t.stage, key, location),
                },
            ),
            StatementView::Scene => Ok(
                TraversalView {
                    pos: t.pos + 1,
                    pages: t.pages,
                    pending: t.pending,
                    stage: empty_stage(),
                },
            ),
            _ => Ok(
                TraversalView {
                    pos: t.pos + 1,
                    pages: t.pages,
                    pending: t.pending,
                    stage: t.stage,
                },
            ),
        }
    }
}

/// The slides of the traversal from state `t` on: statements are dispatched until the
/// position reaches the last line, which is never dispatched.
pub open spec fn run(
    st: Seq<StatementView>,
    defs: Seq<(Seq<char>, CharacterView)>,
    t: TraversalView,
) -> Result<Seq<PageView>, TraverseError>
    decreases st.len() - t.pos,
{
    if t.pos < 0 || t.pos + 1 >= st.len() {
        Ok(t.pages)
    } else {
        match step(st, defs, t) {
            Err(e) => Err(e),
            Ok(t2) => if t.pos < t2.pos <= st.len() {
                run(st, defs, t2)
            } else {
                Ok(t2.pages)
            },
        }
    }
}

/// The index of the first label with this key at or after `i`, or 0 where none is.
pub open spec fn label_from(st: Seq<StatementView>, key: Seq<char>, i: int) -> int
    decreases st.len() - i,
{
    if i < 0 || i >= st.len() {
        0
    } else if st[i] == (StatementView::Label { key }) {
        i
    } else {
        label_from(st, key, i + 1)
    }
}

/// Where the traversal starts: just after the label `start` (after the first line
/// where there is no such label), with no slides and an empty stage.
pub open spec fn start_state(st: Seq<StatementView>) -> TraversalView {
    TraversalView {
        pos: label_from(st, "start"@, 0) + 1,
        pages: Seq::empty(),
        pending: None,
        stage: empty_stage(),
    }
}

/// The slides that a sequence of logical lines gives.
pub open spec fn traverse_spec(st: Seq<StatementView>) -> Result<Seq<PageView>, TraverseError> {
    run(st, definitions(st), start_state(st))
}

/// The index of the first label with this key, or 0 where there is none.
pub fn find_label_index(logical_lines: &Vec<ParseLogicalLine>, key: &str) -> (r: usize)
    ensures
        r == label_from(statements(logical_lines@), key@, 0),
        r == 0 || r < logical_lines@.len(),
{
    let ghost st = statements(logical_lines@);
    let mut i: usize = 0;
    while i < logical_lines.len()
        invariant
            i <= logical_lines@.len(),
            st == statements(logical_lines@),
            label_from(st, key@, 0) == label_from(st, key@, i as int),
        decreases logical_lines@.len() - i,
    {
        match &logical_lines[i].statement {
            ParseStatement::Label { key: k } => {
                if equal_chars(&chars_of(k.as_str()), &chars_of(key)) {
                    return i;
                }
            },
            _ => {},
        }
        i += 1;
    }
    0
}


/// Reads a menu's statements from `from` on (see [`scan_menu`]): the index of the
/// statement that ends it, the prompt's speaker and text, and the choices.
fn read_menu(
    logical_lines: &Vec<ParseLogicalLine>,
    registry: &CharacterRegistry,
    from: usize,
) -> (r: Result<(usize, String, String, Vec<MenuChoice>), TraverseError>)
    ensures
        r matches Ok(x) ==> from <= x.0 < logical_lines@.len(),
        r matches Ok(x) ==> scan_menu(statements(logical_lines@), registry@, from as int, empty_menu())
            == Ok::<(int, MenuView), TraverseError>(
            (x.0 as int, MenuView { name: x.1@, text: x.2@, choices: choice_views(x.3@) }),
        ),
        r matches Err(e) ==> scan_menu(
            statements(logical_lines@),
            registry@,
            from as int,
            empty_menu(),
        ) == Err::<(int, MenuView), TraverseError>(e),
{
    let ghost st = statements(logical_lines@);
    let ghost defs = registry@;
    let n = logical_lines.len();
    let mut j: usize = from;
    let mut name = String::new();
    let mut text = String::new();
    let mut choices: Vec<MenuChoice> = Vec::new();
    assert(MenuView { name: name@, text: text@, choices: choice_views(choices@) } == empty_menu())
        by {
        assert(choice_views(choices@) =~= Seq::<ChoiceView>::empty());
    }
    loop
        invariant
            from <= j,
            n == logical_lines@.len(),
            st == statements(logical_lines@),
            defs == registry@,
            scan_menu(st, defs, from as int, empty_menu()) == scan_menu(
                st,
                defs,
                j as int,
                MenuView { name: name@, text: text@, choices: choice_views(choices@) },
            ),
        ensures
            from <= j < n,
            scan_menu(st, defs, from as int, empty_menu()) == Ok::<(int, MenuView), TraverseError>(
                (j as int, MenuView { name: name@, text: text@, choices: choice_views(choices@) }),
            ),
        decreases n - j,
    {
        if j >= n {
            return Err(TraverseError::UnterminatedMenu);
        }
        let ghost m = MenuView { name: name@, text: text@, choices: choice_views(choices@) };
        match &logical_lines[j].statement {
            ParseStatement::Choice { text: c } => {
                choices.push(MenuChoice { text: c.clone(), jump_key: String::new() });
                assert(choice_views(choices@) =~= m.choices.push(
                    ChoiceView { text: c@, jump_key: Seq::empty() },
                ));
            },
            ParseStatement::Jump { key } => {
                if choices.len() == 0 {
                    return Err(TraverseError::JumpWithoutChoice);
                }
                let k = choices.len() - 1;
                let t = choices[k].text.clone();
                choices.set(k, MenuChoice { text: t, jump_key: key.clone() });
                assert(choice_views(choices@) =~= m.choices.update(
                    m.choices.len() - 1,
                    ChoiceView { text: m.choices.last().text, jump_key: key@ },
                ));
            },
            ParseStatement::Dialogue { character_key, text: tx } => {
                match registry.name_of(character_key) {
                    None => return Err(TraverseError::UnknownCharacter),
                    Some(nm) => {
                        name = nm;
                        text = tx.clone();
                    },
                }
            },
            _ => {
                break ;
            },
        }
        j += 1;
    }
    Ok((j, name, text, choices))
}

/// Walks the logical lines from the label `start` (see [`traverse_spec`]) and returns
/// the slides: one per dialogue, menu and end statement dispatched, each with the
/// stage as it stood, a jump attached to the slide before it.
pub fn traverse_game(logical_lines: &Vec<ParseLogicalLine>) -> (r: Result<Vec<Page>, TraverseError>)
    ensures
        r matches Ok(p) ==> traverse_spec(statements(logical_lines@)) == Ok::<
            Seq<PageView>,
            TraverseError,
        >(page_views(p@)),
        r matches Err(e) ==> traverse_spec(statements(logical_lines@)) == Err::<
            Seq<PageView>,
            TraverseError,
        >(e),
{
    let ghost st = statements(logical_lines@);
    let registry = CharacterRegistry::build(logical_lines);
    let ghost defs = registry@;
    let n = logical_lines.len();
    let mut pos: usize = find_label_index(logical_lines, "start") + 1;
    let mut pages: Vec<Page> = Vec::new();
    let mut pending: Option<String> = None;
    let mut stage = empty_stage_exec();
    assert(page_views(pages@) =~= Seq::<PageView>::empty());
    assert(TraversalView {
        pos: pos as int,
        pages: page_views(pages@),
        pending: opt_view(pending),
        stage: stage_view(stage@),
    } == start_state(st));
    while pos < n && pos + 1 < n
        invariant
            n == logical_lines@.len(),
            st == statements(logical_lines@),
            defs == registry@,
            defs == definitions(st),
            stage@.len() == 5,
            run(st, defs, start_state(st)) == run(
                st,
                defs,
                TraversalView {
                    pos: pos as int,
                    pages: page_views(pages@),
                    pending: opt_view(pending),
                    stage: stage_view(stage@),
                },
            ),
        decreases n - pos,
    {
        let ghost t = TraversalView {
            pos: pos as int,
            pages: page_views(pages@),
            pending: opt_view(pending),
            stage: stage_view(stage@),
        };
        let ghost old_pages = pages@;
        match &logical_lines[pos].statement {
            ParseStatement::Dialogue { character_key, text } => {
                match registry.name_of(character_key) {
                    None => return Err(TraverseError::UnknownCharacter),
                    Some(name) => {
                        let label = pending;
                        let page = Page {
                            index: pos,
                            label,
                            text: PageText::Dialogue { character_name: name, text: text.clone() },
                            images: snapshot(&stage),
                            unconditional_jump: None,
                            end: false,
                        };
                        pages.push(page);
                        assert(page_views(pages@) =~= page_views(old_pages).push(page@));
                        pending = None;
                        pos += 1;
                    },
                }
            },
            ParseStatement::Menu {  } => {
                match read_menu(logical_lines, &registry, pos + 1) {
                    Err(e) => return Err(e),
                    Ok((j, name, text, choices)) => {
                        let page = Page {
                            index: j,
                            label: None,
                            text: PageText::Menu { character_name: name, text, choices },
                            images: empty_stage_exec(),
                            unconditional_jump: None,
                            end: false,
                        };
                        pages.push(page);
                        assert(page_views(pages@) =~= page_views(old_pages).push(page@));
                        pending = None;
                        pos = j;
                    },
                }
            },
            ParseStatement::Label { key } => {
                pending = Some(key.clone());
                pos += 1;
            },
            ParseStatement::Jump { key } => {
                if pages.len() > 0 {
                    let mut last = pages.pop().unwrap();
                    last.unconditional_jump = Some(key.clone());
                    pages.push(last);
                    assert(page_views(pages@) =~= t.pages.update(
                        t.pages.len() - 1,
                        PageView {
                            index: t.pages.last().index,
                            label: t.pages.last().label,
                            text: t.pages.last().text,
                            images: t.pages.last().images,
                            jump: Some(key@),
                            end: t.pages.last().end,
                        },
                    ));
                }
                pos += 1;
            },
            ParseStatement::End {  } => {
                let page = Page {
                    index: pos,
                    label: None,
                    text: PageText::Dialogue {
                        character_name: String::new(),
                        text: String::from_str("End"),
                    },
                    images: snapshot(&stage),
                    unconditional_jump: None,
                    end: true,
                };
                pages.push(page);
                assert(page_views(pages@) =~= page_views(old_pages).push(page@));
                pos += 1;
            },
            ParseStatement::Show { key, location } => {
                show_character(&mut stage, key, *location);
                pos += 1;
            },
            ParseStatement::Scene {  } => {
                stage = empty_stage_exec();
                pos += 1;
            },
            _ => {
                pos += 1;
            },
        }
        assert(step(st, defs, t) == Ok::<TraversalView, TraverseError>(
            TraversalView {
                pos: pos as int,
                pages: page_views(pages@),
                pending: opt_view(pending),
                stage: stage_view(stage@),
            },
        ));
    }
    Ok(pages)
}

} // verus!
