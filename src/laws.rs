//! Properties of the compiler as a whole, stated over the specifications and proved.
use vstd::prelude::*;
use crate::compile::compile_spec;
use crate::render::document;
use crate::script::{CharacterView, StatementView};
use crate::traverse::{
    ChoiceView, PageTextView, PageView, TraversalView, TraverseError, definitions, empty_menu,
    empty_stage, lookup, lookup_below, primary_name, run, scan_menu, show_on, slot_of,
    start_state, step, traverse_spec, MenuView,
};
use crate::script::Location;

verus! {

/// Whether dispatching a statement emits a slide.
pub open spec fn emits(s: StatementView) -> bool {
    s is Dialogue || s is Menu || s is End
}

/// The positions the traversal dispatches from state `t` on, in order.
pub open spec fn dispatched(
    st: Seq<StatementView>,
    defs: Seq<(Seq<char>, CharacterView)>,
    t: TraversalView,
) -> Seq<int>
    decreases st.len() - t.pos,
{
    if t.pos < 0 || t.pos + 1 >= st.len() {
        Seq::empty()
    } else {
        match step(st, defs, t) {
            Err(_) => seq![t.pos],
            Ok(t2) => if t.pos < t2.pos <= st.len() {
                seq![t.pos] + dispatched(st, defs, t2)
            } else {
                seq![t.pos]
            },
        }
    }
}

/// How many of the positions hold a statement that emits a slide.
pub open spec fn emitting_count(st: Seq<StatementView>, ps: Seq<int>) -> nat
    decreases ps.len(),
{
    if ps.len() == 0 {
        0
    } else {
        (if 0 <= ps[0] < st.len() && emits(st[ps[0]]) {
            1nat
        } else {
            0nat
        }) + emitting_count(st, ps.drop_first())
    }
}

proof fn lemma_step_count(
    st: Seq<StatementView>,
    defs: Seq<(Seq<char>, CharacterView)>,
    t: TraversalView,
)
    requires
        0 <= t.pos < st.len(),
        step(st, defs, t) is Ok,
    ensures
        step(st, defs, t)->Ok_0.pages.len() == t.pages.len() + if emits(st[t.pos]) {
            1nat
        } else {
            0nat
        },
{
}

proof fn lemma_run_count(
    st: Seq<StatementView>,
    defs: Seq<(Seq<char>, CharacterView)>,
    t: TraversalView,
)
    requires
        run(st, defs, t) is Ok,
    ensures
        run(st, defs, t)->Ok_0.len() == t.pages.len() + emitting_count(st, dispatched(st, defs, t)),
    decreases st.len() - t.pos,
{
    if t.pos < 0 || t.pos + 1 >= st.len() {
    } else {
        lemma_step_count(st, defs, t);
        let t2 = step(st, defs, t)->Ok_0;
        if t.pos < t2.pos <= st.len() {
            lemma_run_count(st, defs, t2);
            let ps = seq![t.pos] + dispatched(st, defs, t2);
            assert(ps == dispatched(st, defs, t));
            assert(ps[0] == t.pos);
            assert(ps.drop_first() =~= dispatched(st, defs, t2));
        } else {
            let ps = seq![t.pos];
            assert(ps == dispatched(st, defs, t));
            assert(ps[0] == t.pos);
            assert(ps.drop_first() =~= Seq::<int>::empty());
            assert(emitting_count(st, ps.drop_first()) == 0);
        }
    }
}

/// Every slide comes from exactly one dispatched statement: a traversal that succeeds
/// emits as many slides as it dispatches dialogue, menu and end statements.
pub proof fn law_one_slide_per_dispatch(st: Seq<StatementView>)
    requires
        traverse_spec(st) is Ok,
    ensures
        traverse_spec(st)->Ok_0.len() == emitting_count(
            st,
            dispatched(st, definitions(st), start_state(st)),
        ),
{
    lemma_run_count(st, definitions(st), start_state(st));
}

/// The compiler and the renderer are functions of their input: the same script text
/// (and the same image files) give the same slides and the same document.
pub proof fn law_deterministic(a: Seq<char>, b: Seq<char>, present: Seq<Seq<char>>)
    requires
        a == b,
    ensures
        compile_spec(a) == compile_spec(b),
        compile_spec(a) is Ok ==> document(compile_spec(a)->Ok_0, present) == document(
            compile_spec(b)->Ok_0,
            present,
        ),
{
}

proof fn lemma_lookup_push(
    d: Seq<(Seq<char>, CharacterView)>,
    e: (Seq<char>, CharacterView),
    key: Seq<char>,
    j: int,
)
    requires
        0 <= j <= d.len(),
    ensures
        lookup_below(d.push(e), key, j) == lookup_below(d, key, j),
    decreases j,
{
    if j > 0 {
        lemma_lookup_push(d, e, key, j - 1);
    }
}

/// The character a key names is the one of its last definition.
pub proof fn lemma_lookup_last_definition(st: Seq<StatementView>, d: int, key: Seq<char>, ch: CharacterView)
    requires
        0 <= d < st.len(),
        st[d] == (StatementView::Definition { key, character: ch }),
        forall|j: int|
            d < j < st.len() ==> !(#[trigger] st[j] is Definition && st[j]->Definition_key
                == key),
    ensures
        lookup(definitions(st), key) == Some(ch),
    decreases st.len(),
{
    let prev = definitions(st.drop_last());
    if d == st.len() - 1 {
    } else {
        assert forall|j: int| d < j < st.drop_last().len() implies !(#[trigger] st.drop_last()[j] is Definition
            && st.drop_last()[j]->Definition_key == key) by {
            assert(st.drop_last()[j] == st[j]);
        }
        lemma_lookup_last_definition(st.drop_last(), d, key, ch);
        match st.last() {
            StatementView::Definition { key: k, character: c } => {
                assert(st[st.len() - 1] is Definition);
                lemma_lookup_push(prev, (k, c), key, prev.len() as int);
            },
            _ => {},
        }
    }
}

/// Dialogue attributed to a defined key shows the display name of that key's last
/// definition, never the raw key.
pub proof fn law_dialogue_shows_defined_name(
    st: Seq<StatementView>,
    d: int,
    key: Seq<char>,
    ch: CharacterView,
    t: TraversalView,
)
    requires
        0 <= d < st.len(),
        st[d] == (StatementView::Definition { key, character: ch }),
        forall|j: int|
            d < j < st.len() ==> !(#[trigger] st[j] is Definition && st[j]->Definition_key
                == key),
        0 <= t.pos < st.len(),
        st[t.pos] is Dialogue,
        st[t.pos]->Dialogue_character_key == key,
    ensures
        step(st, definitions(st), t) is Ok,
        step(st, definitions(st), t)->Ok_0.pages.last().text == (PageTextView::Dialogue {
            character_name: ch.name,
            text: st[t.pos]->Dialogue_text,
        }),
{
    lemma_lookup_last_definition(st, d, key, ch);
}

/// The first `k` choices of a menu whose choice texts and jump targets are given.
pub open spec fn pairs(texts: Seq<Seq<char>>, keys: Seq<Seq<char>>, k: int) -> Seq<ChoiceView> {
    Seq::new(k as nat, |i: int| ChoiceView { text: texts[i], jump_key: keys[i] })
}

proof fn lemma_scan_pairs(
    st: Seq<StatementView>,
    defs: Seq<(Seq<char>, CharacterView)>,
    p: int,
    texts: Seq<Seq<char>>,
    keys: Seq<Seq<char>>,
    k: int,
)
    requires
        0 <= p,
        0 <= k <= texts.len(),
        texts.len() == keys.len(),
        p + 1 + 2 * texts.len() < st.len(),
        forall|i: int|
            0 <= i < texts.len() ==> st[p + 1 + 2 * i] == (StatementView::Choice {
                text: texts[i],
            }) && st[p + 2 + 2 * i] == (StatementView::Jump { key: keys[i] }),
        !(st[p + 1 + 2 * texts.len()] is Choice || st[p + 1 + 2 * texts.len()] is Jump
            || st[p + 1 + 2 * texts.len()] is Dialogue),
    ensures
        scan_menu(
            st,
            defs,
            p + 1 + 2 * k,
            MenuView { name: Seq::empty(), text: Seq::empty(), choices: pairs(texts, keys, k) },
        ) == Ok::<(int, MenuView), TraverseError>(
            (
                p + 1 + 2 * texts.len(),
                MenuView {
                    name: Seq::empty(),
                    text: Seq::empty(),
                    choices: pairs(texts, keys, texts.len() as int),
                },
            ),
        ),
    decreases texts.len() - k,
{
    let n = texts.len() as int;
    if k < n {
        lemma_scan_pairs(st, defs, p, texts, keys, k + 1);
        let c = pairs(texts, keys, k).push(ChoiceView { text: texts[k], jump_key: Seq::empty() });
        assert(st[p + 1 + 2 * k] == (StatementView::Choice { text: texts[k] }));
        assert(st[p + 2 + 2 * k] == (StatementView::Jump { key: keys[k] }));
        assert(c.update(c.len() - 1, ChoiceView { text: c.last().text, jump_key: keys[k] })
            =~= pairs(texts, keys, k + 1));
        let m0 = MenuView {
            name: Seq::empty(),
            text: Seq::empty(),
            choices: pairs(texts, keys, k),
        };
        let m1 = MenuView { name: Seq::empty(), text: Seq::empty(), choices: c };
        let m2 = MenuView {
            name: Seq::empty(),
            text: Seq::empty(),
            choices: pairs(texts, keys, k + 1),
        };
        assert(scan_menu(st, defs, p + 2 + 2 * k, m1) == scan_menu(st, defs, p + 3 + 2 * k, m2));
        assert(scan_menu(st, defs, p + 1 + 2 * k, m0) == scan_menu(st, defs, p + 2 + 2 * k, m1));
        assert(p + 3 + 2 * k == p + 1 + 2 * (k + 1));
    } else {
        assert(k == n);
        let e = p + 1 + 2 * n;
        assert(0 <= e < st.len());
    }
}

/// A menu made of choices each followed by its jump yields one menu slide whose choices
/// keep the order of the script and pair each text with the jump right after it.
pub proof fn law_menu_choices_in_order(
    st: Seq<StatementView>,
    defs: Seq<(Seq<char>, CharacterView)>,
    t: TraversalView,
    texts: Seq<Seq<char>>,
    keys: Seq<Seq<char>>,
)
    requires
        0 <= t.pos,
        texts.len() == keys.len(),
        t.pos + 1 + 2 * texts.len() < st.len(),
        st[t.pos] is Menu,
        forall|i: int|
            0 <= i < texts.len() ==> st[t.pos + 1 + 2 * i] == (StatementView::Choice {
                text: texts[i],
            }) && st[t.pos + 2 + 2 * i] == (StatementView::Jump { key: keys[i] }),
        !(st[t.pos + 1 + 2 * texts.len()] is Choice || st[t.pos + 1 + 2 * texts.len()] is Jump
            || st[t.pos + 1 + 2 * texts.len()] is Dialogue),
    ensures
        step(st, defs, t) is Ok,
        step(st, defs, t)->Ok_0.pages == t.pages.push(
            PageView {
                index: (t.pos + 1 + 2 * texts.len()) as nat,
                label: None,
                text: PageTextView::Menu {
                    character_name: Seq::empty(),
                    text: Seq::empty(),
                    choices: pairs(texts, keys, texts.len() as int),
                },
                images: empty_stage(),
                jump: None,
                end: false,
            },
        ),
{
    lemma_scan_pairs(st, defs, t.pos, texts, keys, 0);
    assert(pairs(texts, keys, 0) =~= Seq::<ChoiceView>::empty());
    assert(MenuView { name: Seq::empty(), text: Seq::empty(), choices: pairs(texts, keys, 0) }
        == empty_menu());
}

/// Showing a character leaves exactly one slot holding a character of its primary
/// name: the slot of the position, which holds the key (none when shown off stage).
pub proof fn law_show_single_slot(stage: Seq<Option<Seq<char>>>, key: Seq<char>, location: Location)
    requires
        stage.len() == 5,
    ensures
        show_on(stage, key, location).len() == 5,
        slot_of(location) matches Some(i) ==> show_on(stage, key, location)[i] == Some(key),
        forall|j: int|
            0 <= j < 5 && slot_of(location) != Some(j) ==> (#[trigger] show_on(
                stage,
                key,
                location,
            )[j] matches Some(c) ==> primary_name(c) != primary_name(key)),
{
}

/// A scene statement empties all five stage slots, whatever they held.
pub proof fn law_scene_clears_stage(
    st: Seq<StatementView>,
    defs: Seq<(Seq<char>, CharacterView)>,
    t: TraversalView,
)
    requires
        0 <= t.pos < st.len(),
        st[t.pos] is Scene,
    ensures
        step(st, defs, t) is Ok,
        step(st, defs, t)->Ok_0.stage.len() == 5,
        forall|i: int| 0 <= i < 5 ==> #[trigger] step(st, defs, t)->Ok_0.stage[i] is None,
{
}

} // verus!
