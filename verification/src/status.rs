//! The in-game bottom status line.

use crate::color;
use crate::color::ColorDepth;
use crate::framebuffer::Rgb;
use crate::out;
use crate::path;
use crate::text;
use vstd::prelude::*;

verus! {

/// The name before any parenthesized part, without surrounding whitespace.
pub open spec fn friendly_name(path: Seq<char>) -> Seq<char> {
    match path::stem_of(path) {
        Some(stem) => text::trimmed(text::before(stem, '(')),
        None => Seq::empty(),
    }
}

/// The "friendly" part of a ROM file name for display: the title before any
/// parenthesized region/metadata, and without the extension. E.g.
/// "Super Mario Land 2 - 6 Golden Coins (USA, Europe).gb" becomes
/// "Super Mario Land 2 - 6 Golden Coins".
pub fn friendly_rom_name(path: &str) -> (r: String)
    ensures
        r@ == friendly_name(path@),
{
    let v = text::chars_of(path);
    match path::file_stem(v.as_slice()) {
        Some(stem) => text::string_of(text::trim(text::text_before(stem, '('))),
        None => {
            let r = String::new();
            r
        },
    }
}

/// At most `max` characters, with two dots in place of what was cut (as many as
/// fit, where there is no room for two).
pub open spec fn dotted(s: Seq<char>, max: nat) -> Seq<char> {
    if s.len() <= max {
        s
    } else if max < 2 {
        ".."@.take(max as int)
    } else {
        s.take(max - 2) + ".."@
    }
}

/// Truncate to at most `max` chars, appending ".." when cut (ASCII only: this
/// goes out raw over the CP437 channel, so no Unicode ellipsis).
pub fn truncate_chars(s: &str, max: usize) -> (r: String)
    ensures
        r@ == dotted(s@, max as nat),
{
    let v = text::chars_of(s);
    if v.len() <= max {
        return s.to_owned();
    }
    proof {
        reveal_strlit("..");
        reveal_strlit(".");
    }
    if max == 0 {
        let none = String::new();
        assert(none@ == ".."@.take(0));
        return none;
    }
    if max == 1 {
        assert("."@ == ".."@.take(1));
        return ".".to_owned();
    }
    let keep: usize = max - 2;
    let mut r = text::string_of(&v.as_slice()[0..keep]);
    assert(v@.subrange(0, keep as int) == v@.take(keep as int));
    r.append("..");
    r
}

// ---------------------------------------------------------------------------
// Spans
// ---------------------------------------------------------------------------

/// A piece of text and its color.
pub struct Span {
    pub text: String,
    pub color: Rgb,
}

impl View for Span {
    type V = (Seq<char>, Rgb);

    open spec fn view(&self) -> (Seq<char>, Rgb) {
        (self.text@, self.color)
    }
}

pub open spec fn views(spans: Seq<Span>) -> Seq<(Seq<char>, Rgb)> {
    spans.map_values(|s: Span| s@)
}

/// Key labels.
pub open spec fn light() -> Rgb {
    Rgb { r: 170, g: 170, b: 170 }
}

/// Separators (including the "/").
pub open spec fn dark() -> Rgb {
    Rgb { r: 85, g: 85, b: 85 }
}

/// Actions, buttons and the title.
pub open spec fn white() -> Rgb {
    Rgb { r: 255, g: 255, b: 255 }
}

/// The key hints of normal play: keys light, buttons white, separators dark.
pub open spec fn hints() -> Seq<(Seq<char>, Rgb)> {
    seq![
        ("ARROWS"@, light()),
        (" - "@, dark()),
        ("D-Pad"@, white()),
        (" | "@, dark()),
        ("Z"@, light()),
        ("/"@, dark()),
        ("X"@, light()),
        (" - "@, dark()),
        ("A"@, white()),
        ("/"@, dark()),
        ("B"@, white()),
        (" | "@, dark()),
        ("ENTER"@, light()),
        (" - "@, dark()),
        ("Start"@, white()),
        (" | "@, dark()),
        ("SPACE"@, light()),
        (" - "@, dark()),
        ("Select"@, white()),
        (" | "@, dark()),
        ("Q"@, light()),
        (" - "@, dark()),
        ("Quit"@, white()),
    ]
}

/// Columns that a title may take on a line of this width.
pub open spec fn title_room(width: int) -> nat {
    if width - 34 < 8 {
        8
    } else {
        (width - 34) as nat
    }
}

/// The take-over prompt of an attract game.
pub open spec fn prompt(name: Seq<char>, width: int) -> Seq<(Seq<char>, Rgb)> {
    seq![(dotted(name, title_room(width)), white()), (" - press any key to play"@, light())]
}

/// What stands in the middle of the line.
pub open spec fn content(attract: Option<Seq<char>>, width: int) -> Seq<(Seq<char>, Rgb)> {
    match attract {
        Some(name) => prompt(name, width),
        None => hints(),
    }
}

/// Visible columns of some spans.
pub open spec fn columns(spans: Seq<(Seq<char>, Rgb)>) -> nat
    decreases spans.len(),
{
    if spans.len() == 0 {
        0
    } else {
        columns(spans.drop_last()) + spans.last().0.len()
    }
}

/// Spans in their colors.
pub open spec fn painted(depth: ColorDepth, spans: Seq<(Seq<char>, Rgb)>) -> Seq<char>
    decreases spans.len(),
{
    if spans.len() == 0 {
        Seq::empty()
    } else {
        let (t, c) = spans.last();
        painted(depth, spans.drop_last()) + "\x1b["@ + color::fg_sgr_text(
            depth,
            c.r,
            c.g,
            c.b,
        ) + "m"@ + t
    }
}

/// Where a text of `len` columns starts: centered, but never under the FPS.
pub open spec fn start_column(width: int, len: int) -> int {
    if (width - len) / 2 < 8 {
        8
    } else {
        (width - len) / 2
    }
}

/// The text fits between the FPS and the last column.
pub open spec fn has_room(width: int, len: int) -> bool {
    width > len && start_column(width, len) + len <= width - 1
}

/// The status line: cleared to a solid black background first, so the content
/// always renders on black; then the FPS; then the content, if it fits.
pub open spec fn status_text(
    depth: ColorDepth,
    row: int,
    width: int,
    fps: Seq<char>,
    fps_color: Seq<char>,
    attract: Option<Seq<char>>,
) -> Seq<char> {
    let spans = content(attract, width);
    let len = columns(spans) as int;
    out::move_text(0, row) + "\x1b[40m\x1b[K"@ + fps_color + "FPS "@ + fps + (if has_room(
        width,
        len,
    ) {
        out::move_text(start_column(width, len), row) + painted(depth, spans)
    } else {
        Seq::empty()
    }) + "\x1b[0m"@
}

// ---------------------------------------------------------------------------
// Drawing
// ---------------------------------------------------------------------------

fn span(s: &str, color: Rgb) -> (r: Span)
    ensures
        r@ == (s@, color),
{
    Span { text: s.to_owned(), color }
}

fn hint_spans() -> (v: Vec<Span>)
    ensures
        views(v@) == hints(),
{
    let l = Rgb { r: 170, g: 170, b: 170 };
    let d = Rgb { r: 85, g: 85, b: 85 };
    let w = Rgb { r: 255, g: 255, b: 255 };
    let mut v: Vec<Span> = Vec::new();
    v.push(span("ARROWS", l));
    v.push(span(" - ", d));
    v.push(span("D-Pad", w));
    v.push(span(" | ", d));
    // Keys light, buttons white, the slash dark like the other separators.
    v.push(span("Z", l));
    v.push(span("/", d));
    v.push(span("X", l));
    v.push(span(" - ", d));
    v.push(span("A", w));
    v.push(span("/", d));
    v.push(span("B", w));
    v.push(span(" | ", d));
    v.push(span("ENTER", l));
    v.push(span(" - ", d));
    v.push(span("Start", w));
    v.push(span(" | ", d));
    v.push(span("SPACE", l));
    v.push(span(" - ", d));
    v.push(span("Select", w));
    v.push(span(" | ", d));
    v.push(span("Q", l));
    v.push(span(" - ", d));
    v.push(span("Quit", w));
    v
}

fn content_spans(attract: Option<&str>, width: u16) -> (v: Vec<Span>)
    ensures
        views(v@) == content(
            match attract {
                Some(name) => Some(name@),
                None => None,
            },
            width as int,
        ),
{
    match attract {
        Some(name) => {
            let room: usize = if width < 42 {
                8
            } else {
                width as usize - 34
            };
            let title = truncate_chars(name, room);
            let mut v: Vec<Span> = Vec::new();
            v.push(Span { text: title, color: Rgb { r: 255, g: 255, b: 255 } });
            v.push(
                span(" - press any key to play", Rgb { r: 170, g: 170, b: 170 }),
            );
            v
        },
        None => hint_spans(),
    }
}

/// Visible columns, or `None` when they are as many as `width` or more.
fn columns_below(spans: &[Span], width: usize) -> (r: Option<usize>)
    ensures
        match r {
            Some(n) => n == columns(views(spans@)) && n < width,
            None => columns(views(spans@)) >= width,
        },
{
    let mut n: usize = 0;
    let mut i: usize = 0;
    if width == 0 {
        return None;
    }
    while i < spans.len()
        invariant
            i <= spans@.len(),
            n == columns(views(spans@.take(i as int))),
            n < width,
        decreases spans.len() - i,
    {
        assert(views(spans@.take(i + 1)).drop_last() =~= views(spans@.take(i as int)));
        let len: usize = text::chars_of(spans[i].text.as_str()).len();
        if len >= width - n {
            proof {
                lemma_columns_grow(spans@, i + 1);
            }
            return None;
        }
        n += len;
        i += 1;
    }
    assert(spans@.take(i as int) =~= spans@);
    Some(n)
}

proof fn lemma_columns_grow(spans: Seq<Span>, i: int)
    requires
        0 <= i <= spans.len(),
    ensures
        columns(views(spans.take(i))) <= columns(views(spans)),
    decreases spans.len() - i,
{
    if i < spans.len() {
        assert(views(spans.take(i + 1)).drop_last() =~= views(spans.take(i)));
        lemma_columns_grow(spans, i + 1);
    } else {
        assert(spans.take(i) =~= spans);
    }
}

fn push_spans(s: &mut String, depth: ColorDepth, spans: &[Span])
    ensures
        final(s)@ == old(s)@ + painted(depth, views(spans@)),
{
    let mut i: usize = 0;
    while i < spans.len()
        invariant
            i <= spans@.len(),
            s@ == old(s)@ + painted(depth, views(spans@.take(i as int))),
        decreases spans.len() - i,
    {
        assert(views(spans@.take(i + 1)).drop_last() =~= views(spans@.take(i as int)));
        let c = spans[i].color;
        s.append("\x1b[");
        s.append(color::fg_sgr(depth, c.r, c.g, c.b).as_str());
        s.append("m");
        s.append(spans[i].text.as_str());
        i += 1;
    }
    assert(spans@.take(i as int) =~= spans@);
}

/// The in-game bottom status line on `row`: FPS docked at the left, then a
/// centered message. Normal play shows the key hints (key labels light-gray,
/// separators dark-gray, actions white); `attract = Some(name)` shows the game's
/// friendly name + a take-over prompt instead. All quantized to `depth`, kept
/// clear of the FPS, and never writing the last column (autowrap is off
/// session-wide, but staying in bounds is belt-and-suspenders against the
/// bottom-row scroll trap). `fps` is the number in its fixed width.
pub fn draw_status_bar(
    depth: ColorDepth,
    row: u16,
    width: u16,
    fps: &str,
    fps_color: &str,
    attract: Option<&str>,
) -> (s: String)
    requires
        row < 0xffff,
    ensures
        s@ == status_text(
            depth,
            row as int,
            width as int,
            fps@,
            fps_color@,
            match attract {
                Some(name) => Some(name@),
                None => None,
            },
        ),
{
    let spans = content_spans(attract, width);
    let mut s = out::move_to(0, row);
    s.append("\x1b[40m\x1b[K");
    s.append(fps_color);
    s.append("FPS ");
    s.append(fps);
    let ghost left = s@;
    // Center it, but never under the FPS, and never onto the last column (last
    // drawn column must be <= width-2). Skip it if it doesn't fit.
    match columns_below(spans.as_slice(), width as usize) {
        Some(len) => {
            let half: usize = (width as usize - len) / 2;
            let start: usize = if half < 8 {
                8
            } else {
                half
            };
            if start + len <= width as usize - 1 {
                s.append(out::move_to(start as u16, row).as_str());
                push_spans(&mut s, depth, spans.as_slice());
                assert(s@ =~= left + (out::move_text(start as int, row as int) + painted(
                    depth,
                    views(spans@),
                )));
            } else {
                assert(s@ =~= left + Seq::<char>::empty());
            }
        },
        None => {
            assert(s@ =~= left + Seq::<char>::empty());
        },
    }
    s.append("\x1b[0m");
    s
}

// ---------------------------------------------------------------------------
// Laws
// ---------------------------------------------------------------------------

/// A text is never longer than asked for, and one that fits is left alone. Where it
/// was cut and there is room for two dots, they follow the beginning that was kept.
pub proof fn law_truncation_fits(s: Seq<char>, max: nat)
    ensures
        dotted(s, max).len() <= max,
        s.len() <= max ==> dotted(s, max) == s,
        s.len() > max >= 2 ==> dotted(s, max).len() == max && dotted(s, max).take(max - 2)
            == s.take(max - 2) && dotted(s, max).skip(max - 2) == ".."@,
{
    reveal_strlit("..");
}

/// What is drawn in the middle stays clear of the FPS, which takes the first seven
/// columns, and of the last column.
pub proof fn law_content_stays_in_bounds(width: int, len: int)
    requires
        0 <= len,
        has_room(width, len),
    ensures
        start_column(width, len) >= 8,
        start_column(width, len) + len - 1 <= width - 2,
{
}

/// The prompt of an attract game fits any line of 42 columns or more, whatever the
/// game's name.
pub proof fn law_prompt_always_fits(name: Seq<char>, width: int)
    requires
        width >= 42,
    ensures
        has_room(width, columns(prompt(name, width)) as int),
{
    reveal_strlit(" - press any key to play");
    law_truncation_fits(name, title_room(width));
    let p = prompt(name, width);
    assert(columns(p.drop_last()) == p[0].0.len()) by {
        assert(columns(p.drop_last().drop_last()) == 0);
    }
}

/// The text of spans, without their colors.
pub open spec fn plain_text(spans: Seq<(Seq<char>, Rgb)>) -> Seq<char>
    decreases spans.len(),
{
    if spans.len() == 0 {
        Seq::empty()
    } else {
        plain_text(spans.drop_last()) + spans.last().0
    }
}

/// What the key hints read as (Z is A and X is B), and that they are exactly as wide as
/// counted.
#[verifier::rlimit(40)]
pub proof fn law_hints_read_as()
    ensures
        plain_text(hints())
            == "ARROWS - D-Pad | Z/X - A/B | ENTER - Start | SPACE - Select | Q - Quit"@,
{
    reveal_strlit("ARROWS - D-Pad | Z/X - A/B | ENTER - Start | SPACE - Select | Q - Quit");
    reveal_strlit("ARROWS");
    reveal_strlit(" - ");
    reveal_strlit("D-Pad");
    reveal_strlit(" | ");
    reveal_strlit("Z");
    reveal_strlit("/");
    reveal_strlit("X");
    reveal_strlit("A");
    reveal_strlit("B");
    reveal_strlit("ENTER");
    reveal_strlit("Start");
    reveal_strlit("SPACE");
    reveal_strlit("Select");
    reveal_strlit("Q");
    reveal_strlit("Quit");
    let h = hints();
    let want = "ARROWS - D-Pad | Z/X - A/B | ENTER - Start | SPACE - Select | Q - Quit"@;
    lemma_plain_prefix(h, 0);
    lemma_plain_prefix(h, 1);
    lemma_plain_prefix(h, 2);
    lemma_plain_prefix(h, 3);
    lemma_plain_prefix(h, 4);
    lemma_plain_prefix(h, 5);
    lemma_plain_prefix(h, 6);
    lemma_plain_prefix(h, 7);
    lemma_plain_prefix(h, 8);
    lemma_plain_prefix(h, 9);
    lemma_plain_prefix(h, 10);
    lemma_plain_prefix(h, 11);
    lemma_plain_prefix(h, 12);
    lemma_plain_prefix(h, 13);
    lemma_plain_prefix(h, 14);
    lemma_plain_prefix(h, 15);
    lemma_plain_prefix(h, 16);
    lemma_plain_prefix(h, 17);
    lemma_plain_prefix(h, 18);
    lemma_plain_prefix(h, 19);
    lemma_plain_prefix(h, 20);
    lemma_plain_prefix(h, 21);
    lemma_plain_prefix(h, 22);
    assert(h.take(0) == Seq::<(Seq<char>, Rgb)>::empty());
    assert(plain_text(h.take(4)) =~= "ARROWS - D-Pad | "@) by {
        reveal_strlit("ARROWS - D-Pad | ");
    }
    assert(plain_text(h.take(12)) =~= "ARROWS - D-Pad | Z/X - A/B | "@) by {
        reveal_strlit("ARROWS - D-Pad | ");
        reveal_strlit("ARROWS - D-Pad | Z/X - A/B | ");
    }
    assert(plain_text(h.take(20)) =~= "ARROWS - D-Pad | Z/X - A/B | ENTER - Start | SPACE - Select | "@)
        by {
        reveal_strlit("ARROWS - D-Pad | Z/X - A/B | ");
        reveal_strlit("ARROWS - D-Pad | Z/X - A/B | ENTER - Start | SPACE - Select | ");
    }
    reveal_strlit("ARROWS - D-Pad | Z/X - A/B | ENTER - Start | SPACE - Select | ");
    assert(plain_text(h.take(23)) =~= want);
    assert(h.take(23) == h);
}

proof fn lemma_plain_prefix(h: Seq<(Seq<char>, Rgb)>, i: int)
    requires
        0 <= i < h.len(),
    ensures
        plain_text(h.take(i + 1)) == plain_text(h.take(i)) + h[i].0,
{
    assert(h.take(i + 1).drop_last() == h.take(i));
}

/// The prompt of a demo is the game's name, cut to what the line has room for, and the
/// invitation; the line of a game that is played shows the hints.
pub proof fn law_prompt_reads_as(name: Seq<char>, width: int)
    ensures
        plain_text(content(Some(name), width)) == dotted(
            name,
            if width >= 42 {
                (width - 34) as nat
            } else {
                8
            },
        ) + " - press any key to play"@,
        content(None, width) == hints(),
{
    let p = content(Some(name), width);
    lemma_plain_prefix(p, 0);
    lemma_plain_prefix(p, 1);
    assert(p.take(0) == Seq::<(Seq<char>, Rgb)>::empty());
    assert(p.take(2) == p);
}

/// The width that is counted is that of the text.
pub proof fn law_columns_are_counted(spans: Seq<(Seq<char>, Rgb)>)
    ensures
        columns(spans) == plain_text(spans).len(),
    decreases spans.len(),
{
    if spans.len() > 0 {
        law_columns_are_counted(spans.drop_last());
    }
}

/// What is drawn stands in the middle of the line, to the column, unless the FPS are in
/// the way: then directly behind them. It is drawn where it fits, and only there.
pub proof fn law_content_is_centered(width: int, len: int)
    requires
        0 <= len,
    ensures
        start_column(width, len) > 8 ==> 0 <= (width - len - start_column(width, len))
            - start_column(width, len) <= 1,
        width - len < 18 ==> start_column(width, len) == 8,
        has_room(width, len) <==> len < width && start_column(width, len) + len < width,
        width - len >= 18 ==> has_room(width, len),
{
}

/// Spans are painted one after the other, each in its own color.
pub proof fn law_spans_are_painted_in_order(
    depth: ColorDepth,
    spans: Seq<(Seq<char>, Rgb)>,
    t: Seq<char>,
    c: Rgb,
)
    ensures
        painted(depth, Seq::empty()) == Seq::<char>::empty(),
        painted(depth, spans.push((t, c))) == painted(depth, spans) + "\x1b["@ + color::fg_sgr_text(
            depth,
            c.r,
            c.g,
            c.b,
        ) + "m"@ + t,
{
    assert(spans.push((t, c)).drop_last() == spans);
}

/// The status line: on its row, from the first column, the FPS on black; then what fits
/// in the middle; then the default colors.
pub proof fn law_status_line(
    depth: ColorDepth,
    row: int,
    width: int,
    fps: Seq<char>,
    fps_color: Seq<char>,
    attract: Option<Seq<char>>,
)
    requires
        row >= 0,
    ensures
        ({
            let line = status_text(depth, row, width, fps, fps_color, attract);
            let spans = content(attract, width);
            let head = "\x1b["@ + text::decimal((row + 1) as nat) + ";1H\x1b[40m\x1b[K"@ + fps_color
                + "FPS "@ + fps;
            let len = plain_text(spans).len() as int;
            &&& !has_room(width, len) ==> line == head + "\x1b[0m"@
            &&& has_room(width, len) ==> line == head + "\x1b["@ + text::decimal(
                (row + 1) as nat,
            ) + ";"@ + text::decimal((start_column(width, len) + 1) as nat) + "H"@ + painted(
                depth,
                spans,
            ) + "\x1b[0m"@
        }),
{
    reveal_strlit("\x1b[");
    reveal_strlit(";");
    reveal_strlit("H");
    reveal_strlit("\x1b[40m\x1b[K");
    reveal_strlit(";1H\x1b[40m\x1b[K");
    reveal_with_fuel(text::decimal, 2);
    law_columns_are_counted(content(attract, width));
    assert(text::decimal(1) == seq!['1']);
    let head = "\x1b["@ + text::decimal((row + 1) as nat) + ";1H\x1b[40m\x1b[K"@ + fps_color
        + "FPS "@ + fps;
    assert(out::move_text(0, row) + "\x1b[40m\x1b[K"@ + fps_color + "FPS "@ + fps =~= head);
    let line = status_text(depth, row, width, fps, fps_color, attract);
    let len = columns(content(attract, width)) as int;
    if has_room(width, len) {
        assert(line =~= head + out::move_text(start_column(width, len), row) + painted(
            depth,
            content(attract, width),
        ) + "\x1b[0m"@);
        assert(line =~= head + "\x1b["@ + text::decimal((row + 1) as nat) + ";"@ + text::decimal(
            (start_column(width, len) + 1) as nat,
        ) + "H"@ + painted(depth, content(attract, width)) + "\x1b[0m"@);
    } else {
        assert(line =~= head + "\x1b[0m"@);
    }
}

/// A game's name is its file's, without directory and extension, up to the first
/// parenthesis (the region and the like), without white space around it.
pub proof fn law_friendly_names(path: Seq<char>, title: Seq<char>, region: Seq<char>)
    requires
        !title.contains('('),
    ensures
        path::stem_of(path) == Some(title + seq!['('] + region) ==> friendly_name(path)
            == text::trimmed(title),
        path::stem_of(path) == Some(title) ==> friendly_name(path) == text::trimmed(title),
        path::stem_of(path) is None ==> friendly_name(path) == Seq::<char>::empty(),
{
    let s = title + seq!['('] + region;
    assert forall|k: int| 0 <= k < title.len() implies s[k] != '(' by {
        assert(title.contains(title[k]));
    }
    text::lemma_index_of(s, '(', title.len() as int);
    assert(text::before(s, '(') == title);
    text::lemma_contains(title, '(');
    text::lemma_index_of_bounds(title, '(');
    assert(text::before(title, '(') == title);
}

} // verus!
