//! Rendering: the slide list to a beamer document.
use vstd::prelude::*;
use crate::script::texts;
use crate::text::escape;
use crate::text::escape_for_latex;
use crate::traverse::{
    ChoiceView, MenuChoice, Page, PageText, PageTextView, PageView, choice_views, page_views,
    stage_view,
};

verus! {

pub open spec fn digit_text(d: nat) -> Seq<char> {
    if d == 0 {
        "0"@
    } else if d == 1 {
        "1"@
    } else if d == 2 {
        "2"@
    } else if d == 3 {
        "3"@
    } else if d == 4 {
        "4"@
    } else if d == 5 {
        "5"@
    } else if d == 6 {
        "6"@
    } else if d == 7 {
        "7"@
    } else if d == 8 {
        "8"@
    } else {
        "9"@
    }
}

/// The decimal digits of `n`.
pub open spec fn decimal(n: nat) -> Seq<char>
    decreases n,
{
    if n < 10 {
        digit_text(n)
    } else {
        decimal(n / 10) + digit_text(n % 10)
    }
}

/// What opens the document, up to and including its title frame.
pub open spec fn header() -> Seq<char> {
    "\\documentclass[aspectratio=169]{beamer}\n\\usepackage{hyperref}\n\\beamertemplatenavigationsymbolsempty\n\\title{Game Title}\n\\author{Game Author}\n\\date{\\today}\n\\begin{document}\n\\frame{\\titlepage}\n"@
}

/// What closes the document.
pub open spec fn footer() -> Seq<char> {
    "\\end{document}\n"@
}

/// The column of one stage slot: an empty column for an empty slot, the character's
/// image where its file is present, and nothing where it is not.
pub open spec fn image_column(slot: Option<Seq<char>>, present: Seq<Seq<char>>) -> Seq<char> {
    match slot {
        Some(f) => if present.contains(f) {
            "\\begin{column}{0.2\\textwidth}\n"@ + "\\includegraphics[width=\\textwidth]{images/"@
                + f + ".png}\n"@ + "\\end{column}\n"@
        } else {
            Seq::empty()
        },
        None => "\\begin{column}{0.2\\textwidth}\n"@ + "\\end{column}\n"@,
    }
}

/// The columns of the first `i` slots.
pub open spec fn columns_upto(
    images: Seq<Option<Seq<char>>>,
    present: Seq<Seq<char>>,
    i: int,
) -> Seq<char>
    decreases i,
{
    if i <= 0 || i > images.len() {
        Seq::empty()
    } else {
        columns_upto(images, present, i - 1) + image_column(images[i - 1], present)
    }
}

/// The row of stage images: nothing when every slot is empty.
pub open spec fn columns(images: Seq<Option<Seq<char>>>, present: Seq<Seq<char>>) -> Seq<char> {
    if forall|i: int| 0 <= i < images.len() ==> #[trigger] images[i] is None {
        Seq::empty()
    } else {
        "\\begin{columns}\n"@ + columns_upto(images, present, images.len() as int)
            + "\\end{columns}\n"@
    }
}

/// One menu entry: a link to the choice's label.
pub open spec fn item(c: ChoiceView) -> Seq<char> {
    "\\item \\hyperlink{"@ + c.jump_key + "}{"@ + escape(c.text) + "}\n"@
}

/// The entries of the first `i` choices.
pub open spec fn items_upto(choices: Seq<ChoiceView>, i: int) -> Seq<char>
    decreases i,
{
    if i <= 0 || i > choices.len() {
        Seq::empty()
    } else {
        items_upto(choices, i - 1) + item(choices[i - 1])
    }
}

/// The anchor of a slide's label, if it has one.
pub open spec fn label_anchor(label: Option<Seq<char>>) -> Seq<char> {
    match label {
        Some(l) => "\\phantomsection\\hypertarget{"@ + l + "}\n"@,
        None => Seq::empty(),
    }
}

/// The anchor every slide has, named by its position in the deck.
pub open spec fn index_anchor(index: nat) -> Seq<char> {
    "\\phantomsection\\hypertarget{pagenumber"@ + decimal(index) + "}\n"@
}

/// The title, anchors and body of a slide.
pub open spec fn body(p: PageView, index: nat) -> Seq<char> {
    match p.text {
        PageTextView::Dialogue { character_name, text } => "\\frametitle{"@ + character_name
            + "}\n"@ + label_anchor(p.label) + index_anchor(index) + escape(text) + "\n"@,
        PageTextView::Menu { character_name, text, choices } => "\\frametitle{"@
            + character_name + "}\n"@ + label_anchor(p.label) + index_anchor(index) + escape(text)
            + "\n"@ + "\\begin{itemize}\n"@ + items_upto(choices, choices.len() as int)
            + "\\end{itemize}\n"@,
    }
}

/// The forward control of a slide: its jump where it has one, else a link to the next
/// slide, except on menu and terminal slides, which get none.
pub open spec fn navigation(p: PageView, index: nat) -> Seq<char> {
    match p.jump {
        Some(j) => "\\hyperlink{"@ + j + "}{\\beamergotobutton{Next}}\n"@,
        None => if !(p.text is Menu || p.end) {
            "\\hyperlink{pagenumber"@ + decimal(index + 1) + "}{\\beamergotobutton{Next}}\n"@
        } else {
            Seq::empty()
        },
    }
}

/// The frame of the slide at position `index`.
pub open spec fn frame(p: PageView, index: nat, present: Seq<Seq<char>>) -> Seq<char> {
    "\\begin{frame}\n"@ + columns(p.images, present) + body(p, index) + "\\vfill{}\n"@
        + "\\begin{flushright}\n"@ + navigation(p, index) + "\\end{flushright}\n"@
        + "\\end{frame}\n"@
}

/// The frames of the first `i` slides.
pub open spec fn frames_upto(pages: Seq<PageView>, present: Seq<Seq<char>>, i: int) -> Seq<char>
    decreases i,
{
    if i <= 0 || i > pages.len() {
        Seq::empty()
    } else {
        frames_upto(pages, present, i - 1) + frame(pages[i - 1], (i - 1) as nat, present)
    }
}

/// The whole document: the title frame, one frame per slide, the end.
pub open spec fn document(pages: Seq<PageView>, present: Seq<Seq<char>>) -> Seq<char> {
    header() + frames_upto(pages, present, pages.len() as int) + footer()
}

fn digit_str(d: usize) -> (r: &'static str)
    requires
        d < 10,
    ensures
        r@ == digit_text(d as nat),
{
    if d == 0 {
        "0"
    } else if d == 1 {
        "1"
    } else if d == 2 {
        "2"
    } else if d == 3 {
        "3"
    } else if d == 4 {
        "4"
    } else if d == 5 {
        "5"
    } else if d == 6 {
        "6"
    } else if d == 7 {
        "7"
    } else if d == 8 {
        "8"
    } else {
        "9"
    }
}

/// Appends the decimal digits of `n`.
fn push_decimal(out: &mut String, n: usize)
    ensures
        final(out)@ == old(out)@ + decimal(n as nat),
    decreases n,
{
    let ghost before = out@;
    if n >= 10 {
        push_decimal(out, n / 10);
    }
    out.append(digit_str(n % 10));
    assert(out@ =~= before + decimal(n as nat));
}


/// Whether a file name is among the present ones.
fn is_present(present: &Vec<String>, f: &String) -> (r: bool)
    ensures
        r == texts(present@).contains(f@),
{
    let mut i: usize = 0;
    while i < present.len()
        invariant
            i <= present@.len(),
            forall|j: int| 0 <= j < i ==> present@[j]@ != f@,
        decreases present@.len() - i,
    {
        if present[i] == *f {
            assert(texts(present@)[i as int] == f@);
            return true;
        }
        i += 1;
    }
    assert(!texts(present@).contains(f@)) by {
        if texts(present@).contains(f@) {
            let k = choose|k: int| 0 <= k < texts(present@).len() && texts(present@)[k] == f@;
            assert(present@[k]@ == f@);
        }
    }
    false
}

fn push_columns(out: &mut String, images: &Vec<Option<String>>, present: &Vec<String>)
    ensures
        final(out)@ == old(out)@ + columns(stage_view(images@), texts(present@)),
{
    let ghost sv = stage_view(images@);
    let mut any = false;
    let mut k: usize = 0;
    while k < images.len()
        invariant
            k <= images@.len(),
            sv == stage_view(images@),
            !any ==> forall|j: int| 0 <= j < k ==> #[trigger] sv[j] is None,
            any ==> exists|j: int| 0 <= j < k && !(#[trigger] sv[j] is None),
        decreases images@.len() - k,
    {
        if images[k].is_some() {
            assert(!(sv[k as int] is None));
            any = true;
        }
        k += 1;
    }
    if !any {
        return;
    }
    let ghost before = out@;
    out.append("\\begin{columns}\n");
    let ghost start = out@;
    let mut i: usize = 0;
    while i < images.len()
        invariant
            i <= images@.len(),
            sv == stage_view(images@),
            out@ == start + columns_upto(sv, texts(present@), i as int),
        decreases images@.len() - i,
    {
        let ghost prior = out@;
        match &images[i] {
            Some(f) => {
                if is_present(present, f) {
                    out.append("\\begin{column}{0.2\\textwidth}\n");
                    out.append("\\includegraphics[width=\\textwidth]{images/");
                    out.append(f.as_str());
                    out.append(".png}\n");
                    out.append("\\end{column}\n");
                }
            },
            None => {
                out.append("\\begin{column}{0.2\\textwidth}\n");
                out.append("\\end{column}\n");
            },
        }
        assert(out@ =~= prior + image_column(sv[i as int], texts(present@)));
        i += 1;
    }
    out.append("\\end{columns}\n");
    assert(out@ =~= before + columns(sv, texts(present@)));
}

fn push_items(out: &mut String, choices: &Vec<MenuChoice>)
    ensures
        final(out)@ == old(out)@ + items_upto(
            choice_views(choices@),
            choices@.len() as int,
        ),
{
    let ghost cv = choice_views(choices@);
    let ghost start = out@;
    let mut i: usize = 0;
    while i < choices.len()
        invariant
            i <= choices@.len(),
            cv == choice_views(choices@),
            out@ == start + items_upto(cv, i as int),
        decreases choices@.len() - i,
    {
        let ghost prior = out@;
        out.append("\\item \\hyperlink{");
        out.append(choices[i].jump_key.as_str());
        out.append("}{");
        let e = escape_for_latex(choices[i].text.clone());
        out.append(e.as_str());
        out.append("}\n");
        assert(out@ =~= prior + item(cv[i as int]));
        i += 1;
    }
}

fn push_body(out: &mut String, p: &Page, index: usize)
    ensures
        final(out)@ == old(out)@ + body(p@, index as nat),
{
    let ghost before = out@;
    let (name, text) = match &p.text {
        PageText::Dialogue { character_name, text } => (character_name, text),
        PageText::Menu { character_name, text, .. } => (character_name, text),
    };
    out.append("\\frametitle{");
    out.append(name.as_str());
    out.append("}\n");
    match &p.label {
        Some(l) => {
            out.append("\\phantomsection\\hypertarget{");
            out.append(l.as_str());
            out.append("}\n");
        },
        None => {},
    }
    let ghost mid = out@;
    out.append("\\phantomsection\\hypertarget{pagenumber");
    push_decimal(out, index);
    out.append("}\n");
    assert(out@ =~= mid + index_anchor(index as nat));
    let e = escape_for_latex(text.clone());
    out.append(e.as_str());
    out.append("\n");
    match &p.text {
        PageText::Dialogue { .. } => {},
        PageText::Menu { choices, .. } => {
            out.append("\\begin{itemize}\n");
            push_items(out, choices);
            out.append("\\end{itemize}\n");
        },
    }
    assert(out@ =~= before + body(p@, index as nat));
}

fn push_navigation(out: &mut String, p: &Page, index: usize)
    requires
        index < usize::MAX,
    ensures
        final(out)@ == old(out)@ + navigation(p@, index as nat),
{
    let ghost before = out@;
    match &p.unconditional_jump {
        Some(j) => {
            out.append("\\hyperlink{");
            out.append(j.as_str());
            out.append("}{\\beamergotobutton{Next}}\n");
        },
        None => {
            let is_menu = match &p.text {
                PageText::Menu { .. } => true,
                _ => false,
            };
            if !(is_menu || p.end) {
                out.append("\\hyperlink{pagenumber");
                push_decimal(out, index + 1);
                out.append("}{\\beamergotobutton{Next}}\n");
            }
        },
    }
    assert(out@ =~= before + navigation(p@, index as nat));
}

fn push_frame(out: &mut String, p: &Page, index: usize, present_images: &Vec<String>)
    requires
        index < usize::MAX,
    ensures
        final(out)@ == old(out)@ + frame(p@, index as nat, texts(present_images@)),
{
    let ghost before = out@;
    out.append("\\begin{frame}\n");
    push_columns(out, &p.images, present_images);
    push_body(out, p, index);
    out.append("\\vfill{}\n");
    out.append("\\begin{flushright}\n");
    push_navigation(out, p, index);
    out.append("\\end{flushright}\n");
    out.append("\\end{frame}\n");
    assert(out@ =~= before + frame(p@, index as nat, texts(present_images@)));
}

/// Renders the slides as a beamer document: a title frame, then one frame per slide
/// with its stage images, title, anchors, escaped text, menu links and forward
/// control, then the end of the document. `present_images` names the characters whose
/// image file exists; a character without one gets no column.
pub fn latex_output(pages: &Vec<Page>, present_images: &Vec<String>) -> (r: String)
    ensures
        r@ == document(page_views(pages@), texts(present_images@)),
{
    let ghost pv = page_views(pages@);
    let ghost present = texts(present_images@);
    let mut out = String::new();
    out.append("\\documentclass[aspectratio=169]{beamer}\n\\usepackage{hyperref}\n\\beamertemplatenavigationsymbolsempty\n\\title{Game Title}\n\\author{Game Author}\n\\date{\\today}\n\\begin{document}\n\\frame{\\titlepage}\n");
    assert(out@ =~= header());
    let mut i: usize = 0;
    while i < pages.len()
        invariant
            i <= pages@.len(),
            pv == page_views(pages@),
            present == texts(present_images@),
            out@ == header() + frames_upto(pv, present, i as int),
        decreases pages@.len() - i,
    {
        let ghost prior = out@;
        push_frame(&mut out, &pages[i], i, present_images);
        assert(pv[i as int] == pages@[i as int]@);
        assert(frames_upto(pv, present, i + 1) == frames_upto(pv, present, i as int) + frame(
            pv[i as int],
            i as nat,
            present,
        ));
        assert(out@ =~= header() + frames_upto(pv, present, i + 1));
        i += 1;
    }
    out.append("\\end{document}\n");
    assert(out@ =~= document(pv, present));
    out
}

} // verus!
