//! Voice formatting commands: spoken phrases are parsed out of the transcript
//! and turned into formatting before it is pasted.
//!
//!   "new line"       -> a line break
//!   "new paragraph"  -> a blank line (the next word is capitalized)
//!   "scratch that"   -> deletes the previous sentence or segment
//!   "all caps X"     -> uppercases the next word
use crate::text;
use crate::text::{
    byte_len, char_to_uppercase, chars_of, is_alphanumeric, same, slice_of, split_words, string_of,
    to_lowercase, to_uppercase,
};
use vstd::prelude::*;
use vstd::utf8;

verus! {

/// A word of the transcript with everything the commands may turn it into.
/// `raw` keeps the provider's punctuation ("line," / "that."); `core` is the
/// alphanumeric middle, lowercased, which is what command words match against;
/// `upper` and `capital` are `raw` in capitals and with a capital first letter.
pub struct Token {
    pub raw: String,
    pub core: String,
    pub upper: String,
    pub capital: String,
}

/// What a [`Token`] holds.
pub struct TokenView {
    pub raw: Seq<char>,
    pub core: Seq<char>,
    pub upper: Seq<char>,
    pub capital: Seq<char>,
}

impl View for Token {
    type V = TokenView;

    open spec fn view(&self) -> TokenView {
        TokenView {
            raw: self.raw@,
            core: self.core@,
            upper: self.upper@,
            capital: self.capital@,
        }
    }
}

/// What the tokens of a sequence hold.
pub open spec fn token_views(toks: Seq<Token>) -> Seq<TokenView> {
    Seq::new(toks.len(), |i: int| toks[i]@)
}

#[derive(Clone, Copy, Debug, PartialEq, Eq, Structural)]
pub enum Cmd {
    NewLine,
    NewParagraph,
    ScratchThat,
    AllCaps,
}

/// The two words that speak a command.
pub open spec fn phrase(cmd: Cmd) -> (Seq<char>, Seq<char>) {
    match cmd {
        Cmd::NewLine => ("new"@, "line"@),
        Cmd::NewParagraph => ("new"@, "paragraph"@),
        Cmd::ScratchThat => ("scratch"@, "that"@),
        Cmd::AllCaps => ("all"@, "caps"@),
    }
}

/// A word with nothing attached to its core.
pub open spec fn bare(tok: TokenView) -> bool {
    utf8::encode_utf8(tok.raw).len() == utf8::encode_utf8(tok.core).len()
}

/// The words at `i` and `i + 1` speak `cmd`. The first must be bare, so that
/// "brand new. Line two" does not; the second may carry punctuation, which the
/// command consumes.
pub open spec fn spoken(toks: Seq<TokenView>, i: int, cmd: Cmd) -> bool {
    &&& 0 <= i
    &&& i + 1 < toks.len()
    &&& toks[i].core == phrase(cmd).0
    &&& toks[i + 1].core == phrase(cmd).1
    &&& bare(toks[i])
}

/// The command that starts at word `i`, if one does.
pub open spec fn command_at(toks: Seq<TokenView>, i: int) -> Option<Cmd> {
    if spoken(toks, i, Cmd::NewLine) {
        Some(Cmd::NewLine)
    } else if spoken(toks, i, Cmd::NewParagraph) {
        Some(Cmd::NewParagraph)
    } else if spoken(toks, i, Cmd::ScratchThat) {
        Some(Cmd::ScratchThat)
    } else if spoken(toks, i, Cmd::AllCaps) {
        Some(Cmd::AllCaps)
    } else {
        None
    }
}

/// One thing the speaker said: a word, or an instruction.
pub enum Item {
    Word(TokenView),
    LineBreak,
    ParagraphBreak,
    Scratch,
    Caps(TokenView),
}

/// What the words from `i` on say. "All caps" takes the word behind it along,
/// and says nothing where none follows.
pub open spec fn items(toks: Seq<TokenView>, i: int) -> Seq<Item>
    decreases toks.len() - i,
{
    if i < 0 || i >= toks.len() {
        Seq::empty()
    } else {
        match command_at(toks, i) {
            None => seq![Item::Word(toks[i])] + items(toks, i + 1),
            Some(Cmd::NewLine) => seq![Item::LineBreak] + items(toks, i + 2),
            Some(Cmd::NewParagraph) => seq![Item::ParagraphBreak] + items(toks, i + 2),
            Some(Cmd::ScratchThat) => seq![Item::Scratch] + items(toks, i + 2),
            Some(Cmd::AllCaps) => if i + 2 < toks.len() {
                seq![Item::Caps(toks[i + 2])] + items(toks, i + 3)
            } else {
                Seq::empty()
            },
        }
    }
}

/// What the output is built from.
pub enum PieceView {
    Word(Seq<char>),
    LineBreak,
    ParagraphBreak,
}

/// The output under construction, and whether the next word starts a paragraph.
pub struct Layout {
    pub pieces: Seq<PieceView>,
    pub capitalize: bool,
}

/// Without the comma that closes the last word: the pause before a break makes
/// the provider write one, and the break replaces it.
pub open spec fn without_comma(pieces: Seq<PieceView>) -> Seq<PieceView> {
    match pieces.last() {
        PieceView::Word(w) => if w.len() > 0 && w.last() == ',' {
            pieces.drop_last().push(PieceView::Word(w.drop_last()))
        } else {
            pieces
        },
        _ => pieces,
    }
}

/// With a break behind it, unless there is nothing yet to break from.
pub open spec fn broken(pieces: Seq<PieceView>, brk: PieceView) -> Seq<PieceView> {
    if pieces.len() == 0 {
        pieces
    } else {
        without_comma(pieces).push(brk)
    }
}

/// Where a segment ends: at a break, or at a word that closes a sentence.
pub open spec fn boundary(piece: PieceView) -> bool {
    match piece {
        PieceView::Word(w) => w.len() > 0 && (w.last() == '.' || w.last() == '!' || w.last()
            == '?'),
        _ => true,
    }
}

/// The pieces up to and with the last boundary.
pub open spec fn up_to_boundary(pieces: Seq<PieceView>) -> Seq<PieceView>
    decreases pieces.len(),
{
    if pieces.len() == 0 || boundary(pieces.last()) {
        pieces
    } else {
        up_to_boundary(pieces.drop_last())
    }
}

/// Without the trailing segment. The last piece goes even where it is itself a
/// boundary: "tomorrow. Scratch that." takes "tomorrow." with it.
pub open spec fn scratched(pieces: Seq<PieceView>) -> Seq<PieceView> {
    if pieces.len() == 0 {
        pieces
    } else {
        up_to_boundary(pieces.drop_last())
    }
}

/// The output once `item` has been said.
pub open spec fn said(layout: Layout, item: Item) -> Layout {
    match item {
        Item::Word(t) => Layout {
            pieces: layout.pieces.push(
                PieceView::Word(
                    if layout.capitalize {
                        t.capital
                    } else {
                        t.raw
                    },
                ),
            ),
            capitalize: false,
        },
        Item::LineBreak => Layout {
            pieces: broken(layout.pieces, PieceView::LineBreak),
            capitalize: false,
        },
        Item::ParagraphBreak => Layout {
            pieces: broken(layout.pieces, PieceView::ParagraphBreak),
            capitalize: true,
        },
        Item::Scratch => Layout {
            pieces: scratched(layout.pieces),
            capitalize: layout.capitalize,
        },
        Item::Caps(t) => Layout {
            pieces: layout.pieces.push(PieceView::Word(t.upper)),
            capitalize: false,
        },
    }
}

/// The output once all of `said_items` have been said, in order.
pub open spec fn laid_out(said_items: Seq<Item>) -> Layout
    decreases said_items.len(),
{
    if said_items.len() == 0 {
        Layout { pieces: Seq::empty(), capitalize: false }
    } else {
        said(laid_out(said_items.drop_last()), said_items.last())
    }
}

/// The pieces as text: words stand a space apart, except behind a break.
pub open spec fn rendered(pieces: Seq<PieceView>) -> Seq<char>
    decreases pieces.len(),
{
    if pieces.len() == 0 {
        Seq::empty()
    } else {
        let before = rendered(pieces.drop_last());
        match pieces.last() {
            PieceView::Word(w) => if before.len() == 0 || before.last() == '\n' {
                before + w
            } else {
                before.push(' ') + w
            },
            PieceView::LineBreak => before.push('\n'),
            PieceView::ParagraphBreak => before.push('\n').push('\n'),
        }
    }
}

/// Without the line breaks at the end.
pub open spec fn without_trailing_breaks(s: Seq<char>) -> Seq<char>
    decreases s.len(),
{
    if s.len() > 0 && s.last() == '\n' {
        without_trailing_breaks(s.drop_last())
    } else {
        s
    }
}

/// The text that the words of `toks` dictate.
pub open spec fn formatted(toks: Seq<TokenView>) -> Seq<char> {
    without_trailing_breaks(rendered(laid_out(items(toks, 0)).pieces))
}

/// A piece of the output: a word, or a break that a command inserted.
enum Piece {
    Word(Vec<char>),
    LineBreak,
    ParagraphBreak,
}

impl View for Piece {
    type V = PieceView;

    closed spec fn view(&self) -> PieceView {
        match self {
            Piece::Word(w) => PieceView::Word(w@),
            Piece::LineBreak => PieceView::LineBreak,
            Piece::ParagraphBreak => PieceView::ParagraphBreak,
        }
    }
}

spec fn piece_views(pieces: Seq<Piece>) -> Seq<PieceView> {
    Seq::new(pieces.len(), |i: int| pieces[i]@)
}

/// Finds the command phrase that starts at word `i`.
fn match_command(toks: &Vec<Token>, i: usize) -> (r: Option<Cmd>)
    requires
        i < toks@.len(),
    ensures
        r == command_at(token_views(toks@), i as int),
{
    if toks.len() - i < 2 {
        return None;
    }
    let first = &toks[i];
    let second = &toks[i + 1];
    if byte_len(first.raw.as_str()) != byte_len(first.core.as_str()) {
        return None;
    }
    let core = first.core.as_str();
    let next = second.core.as_str();
    if same(core, "new") && same(next, "line") {
        Some(Cmd::NewLine)
    } else if same(core, "new") && same(next, "paragraph") {
        Some(Cmd::NewParagraph)
    } else if same(core, "scratch") && same(next, "that") {
        Some(Cmd::ScratchThat)
    } else if same(core, "all") && same(next, "caps") {
        Some(Cmd::AllCaps)
    } else {
        None
    }
}

fn push_word(out: &mut Vec<Piece>, word: &str)
    ensures
        piece_views(final(out)@) == piece_views(old(out)@).push(PieceView::Word(word@)),
{
    out.push(Piece::Word(chars_of(word)));
    assert(piece_views(out@) =~= piece_views(old(out)@).push(PieceView::Word(word@)));
}

/// Pushes a line or paragraph break where there is something to break from.
fn push_break(out: &mut Vec<Piece>, paragraph: bool)
    ensures
        piece_views(final(out)@) == broken(
            piece_views(old(out)@),
            if paragraph {
                PieceView::ParagraphBreak
            } else {
                PieceView::LineBreak
            },
        ),
{
    let ghost before = piece_views(out@);
    if out.len() == 0 {
        return ;
    }
    let last = out.pop();
    assert(piece_views(out@) =~= before.drop_last());
    if let Some(piece) = last {
        assert(piece@ == before.last());
        let piece = match piece {
            Piece::Word(mut w) => {
                if w.len() > 0 && w[w.len() - 1] == ',' {
                    let ghost whole = w@;
                    w.pop();
                    assert(w@ == whole.drop_last());
                }
                Piece::Word(w)
            },
            other => other,
        };
        let ghost trimmed_last = piece@;
        out.push(piece);
        assert(piece_views(out@) =~= before.drop_last().push(trimmed_last));
        assert(before.drop_last().push(before.last()) =~= before);
        assert(piece_views(out@) == without_comma(before));
    }
    let ghost trimmed = piece_views(out@);
    if paragraph {
        out.push(Piece::ParagraphBreak);
        assert(piece_views(out@) =~= trimmed.push(PieceView::ParagraphBreak));
    } else {
        out.push(Piece::LineBreak);
        assert(piece_views(out@) =~= trimmed.push(PieceView::LineBreak));
    }
}

fn is_boundary(piece: &Piece) -> (r: bool)
    ensures
        r == boundary(piece@),
{
    match piece {
        Piece::Word(w) => {
            if w.len() == 0 {
                return false;
            }
            let c = w[w.len() - 1];
            c == '.' || c == '!' || c == '?'
        },
        _ => true,
    }
}

/// Deletes the trailing segment.
fn scratch(out: &mut Vec<Piece>)
    ensures
        piece_views(final(out)@) == scratched(piece_views(old(out)@)),
{
    let ghost before = piece_views(out@);
    if out.len() == 0 {
        return ;
    }
    out.pop();
    assert(piece_views(out@) =~= before.drop_last());
    while out.len() > 0 && !is_boundary(&out[out.len() - 1])
        invariant
            up_to_boundary(piece_views(out@)) == scratched(before),
        decreases out.len(),
    {
        let ghost held = piece_views(out@);
        out.pop();
        assert(piece_views(out@) =~= held.drop_last());
    }
}

/// The pieces as text, without the breaks at the end that a deletion can leave.
fn render(out: &Vec<Piece>) -> (r: String)
    ensures
        r@ == without_trailing_breaks(rendered(piece_views(out@))),
{
    let mut s: Vec<char> = Vec::new();
    let ghost pieces = piece_views(out@);
    let mut i: usize = 0;
    while i < out.len()
        invariant
            i <= out@.len(),
            pieces == piece_views(out@),
            s@ == rendered(pieces.take(i as int)),
        decreases out.len() - i,
    {
        let ghost next = pieces.take(i + 1);
        assert(next.drop_last() == pieces.take(i as int));
        assert(next.last() == out@[i as int]@);
        match &out[i] {
            Piece::Word(w) => {
                if s.len() > 0 && s[s.len() - 1] != '\n' {
                    s.push(' ');
                }
                let mut tail = slice_of(w, 0, w.len());
                assert(tail@ == w@);
                s.append(&mut tail);
            },
            Piece::LineBreak => {
                s.push('\n');
            },
            Piece::ParagraphBreak => {
                s.push('\n');
                s.push('\n');
            },
        }
        i += 1;
    }
    assert(pieces.take(pieces.len() as int) == pieces);
    while s.len() > 0 && s[s.len() - 1] == '\n'
        invariant
            without_trailing_breaks(s@) == without_trailing_breaks(rendered(pieces)),
        decreases s.len(),
    {
        let ghost held = s@;
        s.pop();
        assert(s@ == held.drop_last());
    }
    string_of(&s)
}

/// Turns the words into text, obeying the commands among them.
pub fn format_tokens(toks: &Vec<Token>) -> (r: String)
    ensures
        r@ == formatted(token_views(toks@)),
{
    let mut out: Vec<Piece> = Vec::new();
    let mut capitalize_next = false;
    let ghost views = token_views(toks@);
    let ghost mut done: Seq<Item> = Seq::empty();
    let mut i: usize = 0;
    assert(piece_views(out@) =~= laid_out(done).pieces);
    assert(items(views, 0) =~= done + items(views, 0));
    while i < toks.len()
        invariant
            i <= toks@.len(),
            views == token_views(toks@),
            items(views, 0) == done + items(views, i as int),
            piece_views(out@) == laid_out(done).pieces,
            capitalize_next == laid_out(done).capitalize,
        decreases toks.len() - i,
    {
        let cmd = match_command(toks, i);
        let ghost was = done;
        let ghost from = i as int;
        let ghost mut item: Item = Item::Scratch;
        let ghost mut silent = false;
        match cmd {
            None => {
                if capitalize_next {
                    push_word(&mut out, toks[i].capital.as_str());
                } else {
                    push_word(&mut out, toks[i].raw.as_str());
                }
                capitalize_next = false;
                proof {
                    item = Item::Word(views[from]);
                }
                i += 1;
            },
            Some(Cmd::NewLine) => {
                push_break(&mut out, false);
                capitalize_next = false;
                proof {
                    item = Item::LineBreak;
                }
                i += 2;
            },
            Some(Cmd::NewParagraph) => {
                push_break(&mut out, true);
                capitalize_next = true;
                proof {
                    item = Item::ParagraphBreak;
                }
                i += 2;
            },
            Some(Cmd::ScratchThat) => {
                scratch(&mut out);
                proof {
                    item = Item::Scratch;
                }
                i += 2;
            },
            Some(Cmd::AllCaps) => {
                i += 2;
                if i < toks.len() {
                    push_word(&mut out, toks[i].upper.as_str());
                    capitalize_next = false;
                    proof {
                        item = Item::Caps(views[from + 2]);
                    }
                    i += 1;
                } else {
                    proof {
                        silent = true;
                    }
                }
            },
        }
        proof {
            if !silent {
                done = was.push(item);
                assert(done.drop_last() == was);
                assert(was + (seq![item] + items(views, i as int)) =~= done + items(
                    views,
                    i as int,
                ));
            }
        }
    }
    assert(done + items(views, i as int) =~= done);
    render(&out)
}

/// `s` from its first alphanumeric character on.
pub open spec fn core_start(s: Seq<char>) -> Seq<char>
    decreases s.len(),
{
    if s.len() > 0 && !text::alphanumeric(s[0]) {
        core_start(s.skip(1))
    } else {
        s
    }
}

/// `s` up to and with its last alphanumeric character.
pub open spec fn core_end(s: Seq<char>) -> Seq<char>
    decreases s.len(),
{
    if s.len() > 0 && !text::alphanumeric(s.last()) {
        core_end(s.drop_last())
    } else {
        s
    }
}

/// `w` with its first character in capitals.
pub open spec fn capitalized(w: Seq<char>) -> Seq<char> {
    if w.len() == 0 {
        w
    } else {
        text::char_uppercase(w[0]) + w.skip(1)
    }
}

/// The token of a word.
pub open spec fn token_of(raw: Seq<char>) -> TokenView {
    TokenView {
        raw,
        core: text::lowercase(core_end(core_start(raw))),
        upper: text::uppercase(raw),
        capital: capitalized(raw),
    }
}

/// The tokens of a transcript.
pub open spec fn tokens(s: Seq<char>) -> Seq<TokenView> {
    Seq::new(text::words(s).len(), |i: int| token_of(text::words(s)[i]))
}

fn capitalize_first(w: &Vec<char>) -> (r: String)
    ensures
        r@ == capitalized(w@),
{
    if w.len() == 0 {
        return String::new();
    }
    let mut s = char_to_uppercase(w[0]);
    let rest = string_of(&slice_of(w, 1, w.len()));
    s.push_str(rest.as_str());
    s
}

/// The alphanumeric middle of `w`.
fn core_of(w: &Vec<char>) -> (r: Vec<char>)
    ensures
        r@ == core_end(core_start(w@)),
{
    let mut lo: usize = 0;
    assert(w@.skip(0) == w@);
    while lo < w.len() && !is_alphanumeric(w[lo])
        invariant
            lo <= w@.len(),
            core_start(w@) == core_start(w@.skip(lo as int)),
        decreases w.len() - lo,
    {
        assert(w@.skip(lo as int).skip(1) == w@.skip(lo + 1));
        lo += 1;
    }
    let ghost rest = w@.skip(lo as int);
    assert(core_start(w@) == rest);
    let mut hi: usize = w.len();
    assert(w@.subrange(lo as int, hi as int) == rest);
    while hi > lo && !is_alphanumeric(w[hi - 1])
        invariant
            lo <= hi <= w@.len(),
            core_end(rest) == core_end(w@.subrange(lo as int, hi as int)),
        decreases hi,
    {
        assert(w@.subrange(lo as int, hi as int).drop_last() == w@.subrange(lo as int, hi - 1));
        hi -= 1;
    }
    slice_of(w, lo, hi)
}

/// Splits a transcript into the tokens that [`format_tokens`] works on.
pub fn tokenize(transcript: &str) -> (toks: Vec<Token>)
    ensures
        token_views(toks@) == tokens(transcript@),
{
    let split = split_words(transcript);
    let mut toks: Vec<Token> = Vec::new();
    let mut i: usize = 0;
    while i < split.len()
        invariant
            i <= split@.len(),
            split@.len() == text::words(transcript@).len(),
            forall|k: int|
                0 <= k < split@.len() ==> (#[trigger] split@[k])@ == text::words(transcript@)[k],
            toks@.len() == i,
            forall|k: int| 0 <= k < i ==> (#[trigger] toks@[k])@ == tokens(transcript@)[k],
        decreases split.len() - i,
    {
        let word = &split[i];
        let raw = string_of(word);
        let core = to_lowercase(string_of(&core_of(word)).as_str());
        let upper = to_uppercase(raw.as_str());
        let capital = capitalize_first(word);
        toks.push(Token { raw, core, upper, capital });
        i += 1;
    }
    assert(token_views(toks@) =~= tokens(transcript@));
    toks
}

/// Obeys the voice commands spoken in `transcript` and returns what is left to paste.
pub fn apply_commands(transcript: &str) -> (r: String)
    ensures
        r@ == formatted(tokens(transcript@)),
{
    format_tokens(&tokenize(transcript))
}

/// The text never ends in a line break.
pub proof fn law_no_trailing_break(toks: Seq<TokenView>)
    ensures
        formatted(toks).len() > 0 ==> formatted(toks).last() != '\n',
{
    lemma_stripped(rendered(laid_out(items(toks, 0)).pieces));
}

proof fn lemma_stripped(s: Seq<char>)
    ensures
        without_trailing_breaks(s).len() > 0 ==> without_trailing_breaks(s).last() != '\n',
    decreases s.len(),
{
    if s.len() > 0 && s.last() == '\n' {
        lemma_stripped(s.drop_last());
    }
}

/// A break is never the first thing in the output: one with nothing before it
/// would paste leading newlines.
pub proof fn law_never_opens_with_a_break(said_items: Seq<Item>)
    ensures
        laid_out(said_items).pieces.len() > 0 ==> laid_out(said_items).pieces[0] is Word,
    decreases said_items.len(),
{
    if said_items.len() > 0 {
        let before = laid_out(said_items.drop_last()).pieces;
        law_never_opens_with_a_break(said_items.drop_last());
        law_scratch_keeps_a_prefix(before);
    }
}

/// "Scratch that" only deletes: what is left is a proper prefix of what stood
/// there, and it is empty or ends at a boundary.
pub proof fn law_scratch_keeps_a_prefix(pieces: Seq<PieceView>)
    ensures
        pieces.len() > 0 ==> scratched(pieces).len() < pieces.len(),
        scratched(pieces) == pieces.take(scratched(pieces).len() as int),
        scratched(pieces).len() > 0 ==> boundary(scratched(pieces).last()),
        forall|k: int|
            scratched(pieces).len() <= k < pieces.len() - 1 ==> !boundary(#[trigger] pieces[k]),
{
    if pieces.len() > 0 {
        lemma_up_to_boundary(pieces.drop_last());
        assert(scratched(pieces) =~= pieces.take(scratched(pieces).len() as int));
        assert forall|k: int| scratched(pieces).len() <= k < pieces.len() - 1 implies !boundary(
            #[trigger] pieces[k],
        ) by {
            assert(pieces.drop_last()[k] == pieces[k]);
        }
    }
}

proof fn lemma_up_to_boundary(pieces: Seq<PieceView>)
    ensures
        up_to_boundary(pieces).len() <= pieces.len(),
        up_to_boundary(pieces) == pieces.take(up_to_boundary(pieces).len() as int),
        up_to_boundary(pieces).len() > 0 ==> boundary(up_to_boundary(pieces).last()),
        forall|k: int|
            up_to_boundary(pieces).len() <= k < pieces.len() ==> !boundary(#[trigger] pieces[k]),
    decreases pieces.len(),
{
    if pieces.len() == 0 || boundary(pieces.last()) {
        assert(pieces =~= pieces.take(pieces.len() as int));
    } else {
        lemma_up_to_boundary(pieces.drop_last());
        assert forall|k: int| up_to_boundary(pieces).len() <= k < pieces.len() implies !boundary(
            #[trigger] pieces[k],
        ) by {
            if k < pieces.len() - 1 {
                assert(pieces.drop_last()[k] == pieces[k]);
            }
        }
        assert(up_to_boundary(pieces) =~= pieces.take(up_to_boundary(pieces).len() as int));
    }
}

/// The words of a text, a space apart.
pub open spec fn spaced(ws: Seq<Seq<char>>) -> Seq<char>
    decreases ws.len(),
{
    if ws.len() == 0 {
        Seq::empty()
    } else if ws.len() == 1 {
        ws[0]
    } else {
        spaced(ws.drop_last()).push(' ') + ws.last()
    }
}

/// A text in which no command is spoken keeps all its words; only the white
/// space between them becomes a single space.
pub proof fn law_plain_words_are_kept(s: Seq<char>)
    requires
        forall|i: int| 0 <= i < tokens(s).len() ==> #[trigger] command_at(tokens(s), i) is None,
    ensures
        formatted(tokens(s)) == spaced(text::words(s)),
{
    let toks = tokens(s);
    let all = items(toks, 0);
    lemma_plain_items(toks, 0);
    lemma_words_rendered(s, all, all.len() as int);
    assert(all.take(all.len() as int) == all);
    assert(text::words(s).take(all.len() as int) =~= text::words(s));
    assert(without_trailing_breaks(spaced(text::words(s))) == spaced(text::words(s)));
}

proof fn lemma_plain_items(toks: Seq<TokenView>, i: int)
    requires
        0 <= i <= toks.len(),
        forall|k: int| 0 <= k < toks.len() ==> #[trigger] command_at(toks, k) is None,
    ensures
        items(toks, i) == Seq::new((toks.len() - i) as nat, |k: int| Item::Word(toks[i + k])),
    decreases toks.len() - i,
{
    if i < toks.len() {
        lemma_plain_items(toks, i + 1);
        assert(command_at(toks, i) is None);
    }
    assert(items(toks, i) =~= Seq::new((toks.len() - i) as nat, |k: int| Item::Word(toks[i + k])));
}

proof fn lemma_words_rendered(s: Seq<char>, all: Seq<Item>, n: int)
    requires
        0 <= n <= all.len() == text::words(s).len(),
        forall|k: int|
            0 <= k < all.len() ==> #[trigger] all[k] == Item::Word(token_of(text::words(s)[k])),
    ensures
        !laid_out(all.take(n)).capitalize,
        rendered(laid_out(all.take(n)).pieces) == spaced(text::words(s).take(n)),
        n > 0 ==> spaced(text::words(s).take(n)).len() > 0,
        n > 0 ==> spaced(text::words(s).take(n)).last() != '\n',
    decreases n,
{
    let ws = text::words(s);
    if n == 0 {
        assert(all.take(0) =~= Seq::empty());
        assert(ws.take(0) =~= Seq::empty());
    } else {
        lemma_words_rendered(s, all, n - 1);
        text::lemma_words_solid(s);
        let w = ws[n - 1];
        assert(w.len() > 0 && !text::white(ws[n - 1][w.len() - 1]));
        assert(all.take(n).drop_last() =~= all.take(n - 1));
        assert(ws.take(n).drop_last() =~= ws.take(n - 1));
        assert(ws.take(n).last() == w);
        assert(all[n - 1] == Item::Word(token_of(w)));
        assert(laid_out(all.take(n)).pieces == laid_out(all.take(n - 1)).pieces.push(
            PieceView::Word(w),
        ));
        assert(laid_out(all.take(n)).pieces.drop_last() =~= laid_out(all.take(n - 1)).pieces);
        if n == 1 {
            assert(rendered(laid_out(all.take(n)).pieces) =~= w);
        }
    }
}

/// A text whose words already stand a single space apart, with nothing at
/// either end.
pub open spec fn single_spaced(s: Seq<char>) -> bool {
    &&& forall|i: int| 0 <= i < s.len() && #[trigger] text::white(s[i]) ==> s[i] == ' '
    &&& forall|i: int|
        0 <= i < s.len() && #[trigger] text::white(s[i]) ==> 0 < i < s.len() - 1 && !text::white(
            s[i + 1],
        )
}

/// Plain text is untouched: where no command is spoken and the words already
/// stand a single space apart, the transcript comes back as it is.
pub proof fn law_plain_text_is_untouched(s: Seq<char>)
    requires
        forall|i: int| 0 <= i < tokens(s).len() ==> #[trigger] command_at(tokens(s), i) is None,
        single_spaced(s),
    ensures
        formatted(tokens(s)) == s,
{
    law_plain_words_are_kept(s);
    lemma_respaced(s, s.len() as int);
    assert(s.take(s.len() as int) == s);
}

proof fn lemma_respaced(s: Seq<char>, n: int)
    requires
        single_spaced(s),
        0 <= n <= s.len(),
    ensures
        n > 0 && text::white(s[n - 1]) ==> spaced(text::words(s.take(n))).push(' ') == s.take(n),
        n == 0 || !text::white(s[n - 1]) ==> spaced(text::words(s.take(n))) == s.take(n),
        n > 0 ==> text::words(s.take(n)).len() > 0,
    decreases n,
{
    let p = s.take(n);
    if n > 0 {
        lemma_respaced(s, n - 1);
        let q = s.take(n - 1);
        assert(p.drop_last() =~= q);
        assert(p.last() == s[n - 1]);
        let before = text::words(q);
        if text::white(s[n - 1]) {
            assert(!text::white(s[n - 2])) by {
                if text::white(s[n - 2]) {
                    assert(!text::white(s[n - 2 + 1]));
                }
            }
            assert(q.push(' ') =~= p);
        } else if n == 1 {
            assert(text::words(p) =~= seq![seq![s[0]]]);
            assert(spaced(text::words(p)) =~= p);
        } else if text::white(s[n - 2]) {
            assert(p[p.len() - 2] == s[n - 2]);
            assert(text::words(p) == before.push(seq![p.last()]));
            assert(text::words(p).drop_last() =~= before);
            assert(spaced(text::words(p)) =~= p);
        } else {
            assert(p[p.len() - 2] == s[n - 2]);
            let grown = before.last().push(p.last());
            assert(text::words(p) == before.drop_last().push(grown));
            assert(text::words(p).drop_last() =~= before.drop_last());
            if before.len() == 1 {
                assert(spaced(text::words(p)) == grown);
                assert(spaced(before) == before[0]);
            } else {
                assert(spaced(text::words(p)) =~= spaced(before).push(p.last()));
            }
            assert(spaced(text::words(p)) =~= p);
        }
    } else {
        assert(p =~= Seq::empty());
    }
}

/// No command starts at any of the words.
pub open spec fn plain(toks: Seq<TokenView>) -> bool {
    forall|i: int| 0 <= i < toks.len() ==> #[trigger] command_at(toks, i) is None
}

/// A word that closes a sentence.
pub open spec fn closes(tok: TokenView) -> bool {
    boundary(PieceView::Word(tok.raw))
}

/// What the words of plain text are laid out as.
spec fn plain_pieces(toks: Seq<TokenView>) -> Seq<PieceView> {
    Seq::new(toks.len(), |k: int| PieceView::Word(toks[k].raw))
}

spec fn plain_said(toks: Seq<TokenView>) -> Seq<Item> {
    Seq::new(toks.len(), |k: int| Item::Word(toks[k]))
}

proof fn lemma_plain_layout(toks: Seq<TokenView>)
    ensures
        laid_out(plain_said(toks)).pieces == plain_pieces(toks),
        !laid_out(plain_said(toks)).capitalize,
    decreases toks.len(),
{
    if toks.len() > 0 {
        lemma_plain_layout(toks.drop_last());
        assert(plain_said(toks).drop_last() =~= plain_said(toks.drop_last()));
        assert(plain_pieces(toks) =~= plain_pieces(toks.drop_last()).push(
            PieceView::Word(toks.last().raw),
        ));
    } else {
        assert(plain_pieces(toks) =~= Seq::empty());
    }
}

/// Words at which no command starts say themselves, whatever follows them.
proof fn lemma_items_before(head: Seq<TokenView>, tail: Seq<TokenView>, i: int)
    requires
        0 <= i <= head.len(),
        forall|k: int| 0 <= k < head.len() ==> #[trigger] command_at(head + tail, k) is None,
    ensures
        items(head + tail, i) == plain_said(head).skip(i) + items(head + tail, head.len() as int),
    decreases head.len() - i,
{
    let all = head + tail;
    if i < head.len() {
        lemma_items_before(head, tail, i + 1);
        assert(command_at(all, i) is None);
        assert(all[i] == head[i]);
        assert(plain_said(head).skip(i) =~= seq![Item::Word(head[i])] + plain_said(head).skip(
            i + 1,
        ));
        assert(items(all, i) =~= plain_said(head).skip(i) + items(all, head.len() as int));
    } else {
        assert(items(all, i) =~= plain_said(head).skip(i) + items(all, head.len() as int));
    }
}

/// "Scratch" ends no command, so that none reaches into one that it begins.
proof fn lemma_scratch_ends_nothing(cmd: Cmd)
    ensures
        phrase(cmd).1 != "scratch"@,
{
    reveal_strlit("scratch");
    reveal_strlit("line");
    reveal_strlit("paragraph");
    reveal_strlit("that");
    reveal_strlit("caps");
    assert("scratch"@.len() == 7);
    assert("line"@.len() == 4);
    assert("paragraph"@.len() == 9);
    assert("that"@.len() == 4);
    assert("caps"@.len() == 4);
}

proof fn lemma_plain_before_scratch(
    head: Seq<TokenView>,
    scratch: TokenView,
    that: TokenView,
    k: int,
)
    requires
        plain(head),
        scratch.core == "scratch"@,
        0 <= k < head.len(),
    ensures
        command_at(head + seq![scratch, that], k) is None,
{
    let all = head + seq![scratch, that];
    assert(all[k] == head[k]);
    if k + 1 < head.len() {
        assert(all[k + 1] == head[k + 1]);
        assert(command_at(head, k) is None);
    } else {
        assert(all[k + 1] == scratch);
        lemma_scratch_ends_nothing(Cmd::NewLine);
        lemma_scratch_ends_nothing(Cmd::NewParagraph);
        lemma_scratch_ends_nothing(Cmd::ScratchThat);
        lemma_scratch_ends_nothing(Cmd::AllCaps);
    }
}

proof fn lemma_only_scratch_at(head: Seq<TokenView>, scratch: TokenView, that: TokenView)
    requires
        scratch.core == "scratch"@,
        that.core == "that"@,
        bare(scratch),
    ensures
        items(head + seq![scratch, that], head.len() as int) == seq![Item::Scratch],
{
    let all = head + seq![scratch, that];
    let n = head.len() as int;
    assert(all[n] == scratch && all[n + 1] == that);
    reveal_strlit("scratch");
    reveal_strlit("new");
    assert("scratch"@.len() == 7 && "new"@.len() == 3);
    assert(spoken(all, n, Cmd::ScratchThat));
    assert(command_at(all, n) == Some(Cmd::ScratchThat));
    assert(items(all, n + 2) =~= Seq::empty());
    assert(items(all, n) =~= seq![Item::Scratch]);
}

/// "Scratch that" takes back exactly the segment that was said last: where `before` is
/// nothing or ends a sentence, and no word of `segment` closes one but possibly its last,
/// and no command is spoken in the two, the text comes out as `before` alone does.
pub proof fn law_scratch_that_takes_back_a_segment(
    before: Seq<TokenView>,
    segment: Seq<TokenView>,
    scratch: TokenView,
    that: TokenView,
)
    requires
        plain(before + segment),
        before.len() == 0 || closes(before.last()),
        segment.len() > 0,
        forall|k: int| 0 <= k < segment.len() - 1 ==> !closes(#[trigger] segment[k]),
        scratch.core == "scratch"@,
        bare(scratch),
        that.core == "that"@,
    ensures
        formatted(before + segment + seq![scratch, that]) == formatted(before),
{
    let head = before + segment;
    let tail = seq![scratch, that];
    let all = head + tail;
    assert forall|k: int| 0 <= k < head.len() implies #[trigger] command_at(all, k) is None by {
        lemma_plain_before_scratch(head, scratch, that, k);
    }
    lemma_items_before(head, tail, 0);
    lemma_only_scratch_at(head, scratch, that);
    let words = plain_said(head);
    assert(words.skip(0) =~= words);
    assert(items(all, 0) == words + seq![Item::Scratch]);
    assert((words + seq![Item::Scratch]).drop_last() =~= words);
    lemma_plain_layout(head);
    let pieces = plain_pieces(head);
    assert(laid_out(items(all, 0)).pieces == scratched(pieces));

    assert forall|k: int| before.len() <= k < head.len() - 1 implies !boundary(
        #[trigger] pieces.drop_last()[k],
    ) by {
        assert(head[k] == segment[k - before.len()]);
        assert(!closes(segment[k - before.len()]));
    }
    if before.len() > 0 {
        assert(head[before.len() - 1] == before.last());
        assert(boundary(pieces.drop_last()[before.len() - 1]));
    }
    lemma_back_to(pieces.drop_last(), before.len() as int);
    assert(pieces.drop_last().take(before.len() as int) =~= plain_pieces(before)) by {
        assert forall|k: int| 0 <= k < before.len() implies pieces[k] == plain_pieces(before)[k] by {
            assert(head[k] == before[k]);
        }
    }

    assert forall|k: int| 0 <= k < before.len() implies #[trigger] command_at(before, k) is None by {
        assert(command_at(head, k) is None);
        assert(head[k] == before[k]);
        if k + 1 < before.len() {
            assert(head[k + 1] == before[k + 1]);
        }
    }
    lemma_plain_items(before, 0);
    assert(items(before, 0) =~= plain_said(before));
    lemma_plain_layout(before);
}

/// Going back to the last boundary stops where it is.
proof fn lemma_back_to(pieces: Seq<PieceView>, n: int)
    requires
        0 <= n <= pieces.len(),
        n > 0 ==> boundary(pieces[n - 1]),
        forall|k: int| n <= k < pieces.len() ==> !boundary(#[trigger] pieces[k]),
    ensures
        up_to_boundary(pieces) == pieces.take(n),
    decreases pieces.len(),
{
    if pieces.len() == n {
        assert(pieces.take(n) =~= pieces);
    } else {
        assert(!boundary(pieces[pieces.len() - 1]));
        assert forall|k: int| n <= k < pieces.drop_last().len() implies !boundary(
            #[trigger] pieces.drop_last()[k],
        ) by {
            assert(pieces.drop_last()[k] == pieces[k]);
        }
        lemma_back_to(pieces.drop_last(), n);
        assert(pieces.drop_last().take(n) =~= pieces.take(n));
    }
}

/// The same of transcripts: `before`, `segment` and then "scratch that", a space apart,
/// come out as `before` alone does.
pub proof fn law_scratch_that_deletes_what_was_said(
    before: Seq<char>,
    segment: Seq<char>,
    scratch_that: Seq<char>,
)
    requires
        plain(tokens(before) + tokens(segment)),
        tokens(before).len() == 0 || closes(tokens(before).last()),
        tokens(segment).len() > 0,
        forall|k: int|
            0 <= k < tokens(segment).len() - 1 ==> !closes(#[trigger] tokens(segment)[k]),
        tokens(scratch_that).len() == 2,
        command_at(tokens(scratch_that), 0) == Some(Cmd::ScratchThat),
    ensures
        formatted(tokens((before.push(' ') + segment).push(' ') + scratch_that)) == formatted(
            tokens(before),
        ),
{
    let first = before.push(' ') + segment;
    let all = first.push(' ') + scratch_that;
    text::lemma_words_apart(before, segment);
    text::lemma_words_apart(first, scratch_that);
    let (a, b, c) = (tokens(before), tokens(segment), tokens(scratch_that));
    assert(tokens(all) =~= a + b + c);
    assert(c =~= seq![c[0], c[1]]);
    assert(spoken(c, 0, Cmd::ScratchThat));
    law_scratch_that_takes_back_a_segment(a, b, c[0], c[1]);
}

/// A form of a word that can stand in a text: it is not empty, it holds no white space,
/// and it is more than a comma.
pub open spec fn solid(w: Seq<char>) -> bool {
    &&& w.len() > 0
    &&& forall|i: int| 0 <= i < w.len() ==> !text::white(#[trigger] w[i])
    &&& w != seq![',']
}

/// Every form that a word may take is solid.
pub open spec fn well_formed(tok: TokenView) -> bool {
    solid(tok.raw) && solid(tok.upper) && solid(tok.capital)
}

/// All white space is single spaces between two characters that are none, and line
/// breaks, neither of them at either end.
pub open spec fn tidy(s: Seq<char>) -> bool {
    &&& s.len() > 0 ==> !text::white(s[0]) && !text::white(s.last())
    &&& forall|i: int|
        0 <= i < s.len() && #[trigger] text::white(s[i]) ==> s[i] == ' ' || s[i] == '\n'
    &&& forall|i: int|
        0 <= i < s.len() && #[trigger] s[i] == ' ' ==> 0 < i < s.len() - 1 && !text::white(s[i - 1])
            && !text::white(s[i + 1])
}

/// The words among the pieces are whole, and the last piece is no lone comma.
spec fn sound(pieces: Seq<PieceView>) -> bool {
    &&& forall|k: int| 0 <= k < pieces.len() ==> whole(#[trigger] pieces[k])
    &&& pieces.len() > 0 ==> pieces[0] is Word && pieces.last() != PieceView::Word(seq![','])
}

spec fn whole(piece: PieceView) -> bool {
    match piece {
        PieceView::Word(w) => w.len() > 0 && forall|i: int|
            0 <= i < w.len() ==> !text::white(#[trigger] w[i]),
        _ => true,
    }
}

spec fn item_well_formed(item: Item) -> bool {
    match item {
        Item::Word(t) => well_formed(t),
        Item::Caps(t) => well_formed(t),
        _ => true,
    }
}

proof fn lemma_items_well_formed(toks: Seq<TokenView>, i: int)
    requires
        forall|k: int| 0 <= k < toks.len() ==> well_formed(#[trigger] toks[k]),
    ensures
        forall|k: int|
            0 <= k < items(toks, i).len() ==> item_well_formed(#[trigger] items(toks, i)[k]),
    decreases
            if i < toks.len() {
                toks.len() - i
            } else {
                0
            },
{
    if 0 <= i < toks.len() {
        lemma_items_well_formed(toks, i + 1);
        lemma_items_well_formed(toks, i + 2);
        lemma_items_well_formed(toks, i + 3);
        assert(well_formed(toks[i]));
        if i + 2 < toks.len() {
            assert(well_formed(toks[i + 2]));
        }
        let all = items(toks, i);
        assert forall|k: int| 0 <= k < all.len() implies item_well_formed(#[trigger] all[k]) by {
            if k > 0 {
                match command_at(toks, i) {
                    None => assert(all[k] == items(toks, i + 1)[k - 1]),
                    Some(Cmd::AllCaps) => assert(all[k] == items(toks, i + 3)[k - 1]),
                    _ => assert(all[k] == items(toks, i + 2)[k - 1]),
                }
            }
        }
    }
}

proof fn lemma_sound(said_items: Seq<Item>)
    requires
        forall|k: int| 0 <= k < said_items.len() ==> item_well_formed(#[trigger] said_items[k]),
    ensures
        sound(laid_out(said_items).pieces),
    decreases said_items.len(),
{
    if said_items.len() > 0 {
        let rest = said_items.drop_last();
        let item = said_items.last();
        assert forall|k: int| 0 <= k < rest.len() implies item_well_formed(#[trigger] rest[k]) by {
            assert(rest[k] == said_items[k]);
        }
        lemma_sound(rest);
        assert(item_well_formed(item));
        let before = laid_out(rest).pieces;
        let after = laid_out(said_items).pieces;
        match item {
            Item::LineBreak => lemma_sound_break(before, PieceView::LineBreak),
            Item::ParagraphBreak => lemma_sound_break(before, PieceView::ParagraphBreak),
            Item::Scratch => {
                law_scratch_keeps_a_prefix(before);
                assert forall|k: int| 0 <= k < after.len() implies whole(#[trigger] after[k]) by {
                    assert(after[k] == before[k]);
                }
                if after.len() > 0 {
                    assert(after[0] == before[0]);
                    assert(boundary(after.last()));
                    if after.last() == PieceView::Word(seq![',']) {
                        assert(seq![','].last() == ',');
                    }
                }
            },
            _ => {
                assert(whole(after.last()));
            },
        }
    }
}

proof fn lemma_sound_break(pieces: Seq<PieceView>, brk: PieceView)
    requires
        sound(pieces),
        !(brk is Word),
    ensures
        sound(broken(pieces, brk)),
{
    if pieces.len() > 0 {
        let last = pieces.last();
        assert(whole(pieces[pieces.len() - 1]));
        let kept = without_comma(pieces);
        if let PieceView::Word(w) = last {
            if w.len() > 0 && w.last() == ',' {
                if w.len() == 1 {
                    assert(w =~= seq![',']);
                }
                let short = PieceView::Word(w.drop_last());
                assert(whole(short)) by {
                    assert forall|i: int| 0 <= i < w.drop_last().len() implies !text::white(
                        #[trigger] w.drop_last()[i],
                    ) by {
                        assert(!text::white(w[i]));
                    }
                }
                assert forall|k: int| 0 <= k < kept.len() implies whole(#[trigger] kept[k]) by {
                    if k < pieces.len() - 1 {
                        assert(kept[k] == pieces[k]);
                    }
                }
            }
        }
        assert(kept.len() == pieces.len());
        assert(kept[0] is Word);
        let out = kept.push(brk);
        assert forall|k: int| 0 <= k < out.len() implies whole(#[trigger] out[k]) by {
            if k < kept.len() {
                assert(out[k] == kept[k]);
            }
        }
        assert(out[0] == kept[0]);
    }
}

/// What holds of a text while it is put together: as [`tidy`], but for the breaks that
/// may still stand at its end.
spec fn neat(s: Seq<char>) -> bool {
    &&& s.len() > 0 ==> !text::white(s[0])
    &&& forall|i: int|
        0 <= i < s.len() && #[trigger] text::white(s[i]) ==> s[i] == ' ' || s[i] == '\n'
    &&& forall|i: int|
        0 <= i < s.len() && #[trigger] s[i] == ' ' ==> 0 < i < s.len() - 1 && !text::white(s[i - 1])
            && !text::white(s[i + 1])
}

proof fn lemma_neat(pieces: Seq<PieceView>)
    requires
        forall|k: int| 0 <= k < pieces.len() ==> whole(#[trigger] pieces[k]),
        pieces.len() > 0 ==> pieces[0] is Word,
    ensures
        neat(rendered(pieces)),
        pieces.len() > 0 ==> rendered(pieces).len() > 0,
        pieces.len() > 0 && pieces.last() is Word ==> !text::white(rendered(pieces).last()),
        pieces.len() > 0 && !(pieces.last() is Word) ==> rendered(pieces).last() == '\n',
    decreases pieces.len(),
{
    if pieces.len() > 0 {
        let rest = pieces.drop_last();
        assert forall|k: int| 0 <= k < rest.len() implies whole(#[trigger] rest[k]) by {
            assert(rest[k] == pieces[k]);
        }
        if rest.len() > 0 {
            assert(rest[0] == pieces[0]);
        }
        lemma_neat(rest);
        let before = rendered(rest);
        let s = rendered(pieces);
        assert(whole(pieces[pieces.len() - 1]));
        if rest.len() == 0 {
            assert(before.len() == 0);
        }
        match pieces.last() {
            PieceView::Word(w) => {
                assert(!text::white(w[0]));
                assert(!text::white(w[w.len() - 1]));
                let n = s.len() - w.len();
                assert forall|i: int| n <= i < s.len() implies !text::white(#[trigger] s[i]) by {
                    assert(s[i] == w[i - n]);
                    assert(!text::white(w[i - n]));
                }
                assert forall|i: int| 0 <= i < before.len() implies s[i] == before[i] by {}
                assert(s.last() == w.last());
            },
            _ => {
                assert forall|i: int| 0 <= i < before.len() implies s[i] == before[i] by {}
                assert(text::white('\n'));
            },
        }
        assert forall|i: int| 0 <= i < s.len() && #[trigger] text::white(s[i]) implies s[i] == ' '
            || s[i] == '\n' by {
            if i < before.len() {
                assert(s[i] == before[i]);
                assert(text::white(before[i]));
            }
        }
        assert forall|i: int| 0 <= i < s.len() && #[trigger] s[i] == ' ' implies 0 < i < s.len() - 1
            && !text::white(s[i - 1]) && !text::white(s[i + 1]) by {
            assert(text::white(' '));
            if i < before.len() {
                assert(before[i] == ' ');
                assert(s[i - 1] == before[i - 1]);
                assert(s[i + 1] == before[i + 1]);
            }
        }
    }
}

proof fn lemma_tidied(s: Seq<char>)
    requires
        neat(s),
    ensures
        tidy(without_trailing_breaks(s)),
    decreases s.len(),
{
    if s.len() > 0 && s.last() == '\n' {
        let t = s.drop_last();
        assert(text::white('\n'));
        assert(s.len() > 1);
        assert forall|i: int| 0 <= i < t.len() && #[trigger] text::white(t[i]) implies t[i] == ' '
            || t[i] == '\n' by {
            assert(text::white(s[i]));
        }
        assert forall|i: int| 0 <= i < t.len() && #[trigger] t[i] == ' ' implies 0 < i < t.len() - 1
            && !text::white(t[i - 1]) && !text::white(t[i + 1]) by {
            assert(s[i] == ' ');
            if i + 1 == s.len() - 1 {
                assert(s[i + 1] == '\n');
            }
        }
        lemma_tidied(t);
    } else if s.len() > 0 {
        if text::white(s[s.len() - 1]) {
            assert(s[s.len() - 1] == ' ');
        }
    }
}

/// However the words are laid out, the text is tidy: no white space opens or closes it,
/// no two spaces stand together and none stands beside a line break.
pub proof fn law_the_text_is_tidy(toks: Seq<TokenView>)
    requires
        forall|k: int| 0 <= k < toks.len() ==> well_formed(#[trigger] toks[k]),
    ensures
        tidy(formatted(toks)),
{
    lemma_items_well_formed(toks, 0);
    let all = items(toks, 0);
    lemma_sound(all);
    lemma_neat(laid_out(all).pieces);
    lemma_tidied(rendered(laid_out(all).pieces));
}

/// What speaks a command: the two words of one of the four phrases, in any case and with
/// any punctuation behind the second, but none on the first. No other pair of words does.
pub proof fn law_what_speaks_a_command(toks: Seq<TokenView>, i: int)
    requires
        0 <= i,
        i + 1 < toks.len(),
    ensures
        ({
            let (one, two) = (toks[i].core, toks[i + 1].core);
            let alone = utf8::encode_utf8(toks[i].raw).len() == utf8::encode_utf8(one).len();
            &&& command_at(toks, i) == Some(Cmd::NewLine) <==> alone && one == "new"@ && two
                == "line"@
            &&& command_at(toks, i) == Some(Cmd::NewParagraph) <==> alone && one == "new"@ && two
                == "paragraph"@
            &&& command_at(toks, i) == Some(Cmd::ScratchThat) <==> alone && one == "scratch"@
                && two == "that"@
            &&& command_at(toks, i) == Some(Cmd::AllCaps) <==> alone && one == "all"@ && two
                == "caps"@
        }),
{
    lemma_first_words();
    lemma_second_words();
}

/// A single word, and the last word of a text, speak no command.
pub proof fn law_the_last_word_speaks_no_command(toks: Seq<TokenView>, i: int)
    requires
        i + 1 >= toks.len(),
    ensures
        command_at(toks, i) is None,
{
}

proof fn lemma_first_words()
    ensures
        "new"@.len() == 3,
        "scratch"@.len() == 7,
        "all"@.len() == 3,
        "new"@ != "all"@,
{
    reveal_strlit("new");
    reveal_strlit("scratch");
    reveal_strlit("all");
    assert("new"@[0] == 'n' && "all"@[0] == 'a');
}

proof fn lemma_second_words()
    ensures
        "line"@.len() == 4,
        "paragraph"@.len() == 9,
        "that"@.len() == 4,
        "caps"@.len() == 4,
        "line"@[0] == 'l',
{
    reveal_strlit("line");
    reveal_strlit("paragraph");
    reveal_strlit("that");
    reveal_strlit("caps");
}

/// Neither "new" nor "all" ends a command, so that none reaches into one that they begin.
proof fn lemma_openers_end_nothing(cmd: Cmd)
    ensures
        phrase(cmd).1 != "new"@,
        phrase(cmd).1 != "all"@,
{
    lemma_first_words();
    lemma_second_words();
}

/// The words that the tokens stand for.
pub open spec fn raws(toks: Seq<TokenView>) -> Seq<Seq<char>> {
    Seq::new(toks.len(), |k: int| toks[k].raw)
}

/// A word as it can be written: it is not empty and holds no white space.
pub open spec fn written(w: Seq<char>) -> bool {
    &&& w.len() > 0
    &&& forall|i: int| 0 <= i < w.len() ==> !text::white(#[trigger] w[i])
}

/// A command that is spoken behind plain words is the first thing said after them, and
/// what follows it is said as it would be alone.
proof fn lemma_said_around(
    a: Seq<TokenView>,
    opener: TokenView,
    more: Seq<TokenView>,
)
    requires
        plain(a),
        opener.core == "new"@ || opener.core == "all"@,
    ensures
        items(a + (seq![opener] + more), 0) == plain_said(a) + items(seq![opener] + more, 0),
{
    let tail = seq![opener] + more;
    let all = a + tail;
    assert forall|k: int| 0 <= k < a.len() implies #[trigger] command_at(all, k) is None by {
        assert(all[k] == a[k]);
        if k + 1 < a.len() {
            assert(all[k + 1] == a[k + 1]);
            assert(command_at(a, k) is None);
        } else {
            assert(all[k + 1] == opener);
            lemma_openers_end_nothing(Cmd::NewLine);
            lemma_openers_end_nothing(Cmd::NewParagraph);
            lemma_openers_end_nothing(Cmd::ScratchThat);
            lemma_openers_end_nothing(Cmd::AllCaps);
        }
    }
    lemma_items_before(a, tail, 0);
    assert(plain_said(a).skip(0) =~= plain_said(a));
    lemma_items_behind(a, tail, 0);
}

/// What is said from some word on does not depend on what stands before it.
proof fn lemma_items_behind(head: Seq<TokenView>, tail: Seq<TokenView>, i: int)
    requires
        0 <= i,
    ensures
        items(head + tail, head.len() + i) == items(tail, i),
    decreases
            if i < tail.len() {
                tail.len() - i
            } else {
                0
            },
{
    let all = head + tail;
    let n = head.len() as int;
    if i < tail.len() {
        lemma_items_behind(head, tail, i + 1);
        lemma_items_behind(head, tail, i + 2);
        lemma_items_behind(head, tail, i + 3);
        assert(all[n + i] == tail[i]);
        if i + 1 < tail.len() {
            assert(all[n + i + 1] == tail[i + 1]);
        }
        if i + 2 < tail.len() {
            assert(all[n + i + 2] == tail[i + 2]);
        }
        assert(command_at(all, n + i) == command_at(tail, i));
    }
}

/// Plain words add themselves to what has been laid out; the first of them opens a
/// paragraph where one was due.
proof fn lemma_laid_behind(said_items: Seq<Item>, b: Seq<TokenView>)
    ensures
        ({
            let before = laid_out(said_items);
            let after = laid_out(said_items + plain_said(b));
            let ws = if b.len() > 0 && before.capitalize {
                raws(b).update(0, b[0].capital)
            } else {
                raws(b)
            };
            &&& after.pieces == before.pieces + Seq::new(ws.len(), |k: int| PieceView::Word(ws[k]))
            &&& b.len() > 0 ==> !after.capitalize
            &&& b.len() == 0 ==> after == before
        }),
    decreases b.len(),
{
    let all = said_items + plain_said(b);
    if b.len() == 0 {
        assert(all =~= said_items);
        assert(laid_out(said_items).pieces + Seq::<PieceView>::empty() =~= laid_out(
            said_items,
        ).pieces);
        assert(Seq::new(raws(b).len(), |k: int| PieceView::Word(raws(b)[k])) =~= Seq::<
            PieceView,
        >::empty());
    } else {
        let rest = b.drop_last();
        lemma_laid_behind(said_items, rest);
        assert(all.drop_last() =~= said_items + plain_said(rest));
        assert(all.last() == Item::Word(b.last()));
        let before = laid_out(said_items);
        let ws = if before.capitalize {
            raws(b).update(0, b[0].capital)
        } else {
            raws(b)
        };
        if rest.len() > 0 {
            let short = if before.capitalize {
                raws(rest).update(0, rest[0].capital)
            } else {
                raws(rest)
            };
            assert(short =~= ws.drop_last());
            assert(ws.last() == b.last().raw);
        } else {
            assert(b.last() == b[0]);
            assert(laid_out(all.drop_last()) == before);
        }
        assert(laid_out(all).pieces =~= before.pieces + Seq::new(
            ws.len(),
            |k: int| PieceView::Word(ws[k]),
        ));
    }
}

/// Words that stand behind nothing or behind a break come out a space apart.
proof fn lemma_rendered_behind(pieces: Seq<PieceView>, ws: Seq<Seq<char>>)
    requires
        rendered(pieces).len() == 0 || rendered(pieces).last() == '\n',
        forall|k: int| 0 <= k < ws.len() ==> written(#[trigger] ws[k]),
    ensures
        rendered(pieces + Seq::new(ws.len(), |k: int| PieceView::Word(ws[k]))) == rendered(pieces)
            + spaced(ws),
        ws.len() > 0 ==> spaced(ws).len() > 0 && spaced(ws).last() == ws.last().last() && !text::white(
            spaced(ws).last(),
        ),
    decreases ws.len(),
{
    let all = pieces + Seq::new(ws.len(), |k: int| PieceView::Word(ws[k]));
    if ws.len() == 0 {
        assert(all =~= pieces);
        assert(rendered(pieces) + spaced(ws) =~= rendered(pieces));
    } else {
        let rest = ws.drop_last();
        assert forall|k: int| 0 <= k < rest.len() implies written(#[trigger] rest[k]) by {
            assert(written(ws[k]));
        }
        lemma_rendered_behind(pieces, rest);
        assert(all.drop_last() =~= pieces + Seq::new(
            rest.len(),
            |k: int| PieceView::Word(rest[k]),
        ));
        let w = ws.last();
        assert(written(ws[ws.len() - 1]));
        assert(all.last() == PieceView::Word(w));
        let before = rendered(all.drop_last());
        assert(!text::white(w[w.len() - 1]));
        if ws.len() == 1 {
            assert(before =~= rendered(pieces));
            assert(spaced(ws) == w);
        } else {
            assert(before.last() == spaced(rest).last());
            assert(text::white('\n'));
            assert(rendered(all) =~= rendered(pieces) + spaced(ws));
        }
    }
}

/// What plain words have come to before a break takes over: a comma at their very end goes.
proof fn lemma_rendered_before_break(a: Seq<TokenView>, brk: PieceView)
    requires
        a.len() > 0,
        forall|k: int| 0 <= k < a.len() ==> written((#[trigger] a[k]).raw),
        !(brk is Word),
    ensures
        ({
            let text = spaced(raws(a));
            let kept = if text.last() == ',' {
                text.drop_last()
            } else {
                text
            };
            &&& text.len() > 0
            &&& text.last() == a.last().raw.last()
            &&& rendered(broken(plain_pieces(a), brk)) == (if brk is LineBreak {
                kept.push('\n')
            } else {
                kept.push('\n').push('\n')
            })
        }),
{
    let ws = raws(a);
    let e = Seq::<PieceView>::empty();
    assert forall|k: int| 0 <= k < ws.len() implies written(#[trigger] ws[k]) by {
        assert(written(a[k].raw));
    }
    lemma_rendered_behind(e, ws);
    let pieces = plain_pieces(a);
    assert(e + Seq::new(ws.len(), |k: int| PieceView::Word(ws[k])) =~= pieces);
    assert(rendered(e) + spaced(ws) =~= spaced(ws));
    let w = ws.last();
    assert(written(ws[ws.len() - 1]));
    let out = broken(pieces, brk);
    assert(pieces.last() == PieceView::Word(w));
    if w.last() == ',' {
        let cut = pieces.drop_last().push(PieceView::Word(w.drop_last()));
        assert(out.drop_last() =~= cut);
        assert(cut.drop_last() =~= pieces.drop_last());
        assert(rendered(cut) =~= rendered(pieces).drop_last());
    } else {
        assert(out.drop_last() =~= pieces);
    }
}

/// A spoken break stands between what was said before it and what is said after it, in
/// place of at most one comma: every other character of both is kept.
proof fn lemma_broken_text(
    a: Seq<TokenView>,
    new: TokenView,
    second: TokenView,
    b: Seq<TokenView>,
    cmd: Cmd,
)
    requires
        plain(a),
        plain(b),
        b.len() > 0,
        forall|k: int| 0 <= k < a.len() ==> written((#[trigger] a[k]).raw),
        forall|k: int| 0 <= k < b.len() ==> written((#[trigger] b[k]).raw),
        cmd == Cmd::NewParagraph ==> written(b[0].capital),
        new.core == "new"@,
        bare(new),
        (cmd == Cmd::NewLine && second.core == "line"@) || (cmd == Cmd::NewParagraph && second.core
            == "paragraph"@),
    ensures
        ({
            let out = formatted(a + (seq![new, second] + b));
            let text = spaced(raws(a));
            let kept = if text.last() == ',' {
                text.drop_last()
            } else {
                text
            };
            let ws = if cmd == Cmd::NewParagraph {
                raws(b).update(0, b[0].capital)
            } else {
                raws(b)
            };
            &&& a.len() == 0 ==> out == spaced(ws)
            &&& a.len() > 0 && cmd == Cmd::NewLine ==> out == kept.push('\n') + spaced(ws)
            &&& a.len() > 0 && cmd == Cmd::NewParagraph ==> out == kept.push('\n').push('\n')
                + spaced(ws)
        }),
{
    let tail = seq![new, second] + b;
    assert(tail =~= seq![new] + (seq![second] + b));
    lemma_said_around(a, new, seq![second] + b);
    lemma_first_words();
    lemma_second_words();
    assert(tail[0] == new && tail[1] == second);
    assert(command_at(tail, 0) == Some(cmd));
    lemma_items_behind(seq![new, second], b, 0);
    lemma_plain_items(b, 0);
    assert(items(b, 0) =~= plain_said(b));
    let (brk_item, brk) = if cmd == Cmd::NewLine {
        (Item::LineBreak, PieceView::LineBreak)
    } else {
        (Item::ParagraphBreak, PieceView::ParagraphBreak)
    };
    assert(items(tail, 2) == plain_said(b));
    assert(items(tail, 0) =~= seq![brk_item] + plain_said(b));
    let head = plain_said(a).push(brk_item);
    assert(items(a + tail, 0) =~= head + plain_said(b));
    assert(head.drop_last() =~= plain_said(a));
    lemma_plain_layout(a);
    let opened = laid_out(head);
    assert(opened.pieces == broken(plain_pieces(a), brk));
    assert(opened.capitalize == (cmd == Cmd::NewParagraph));
    let ws = if cmd == Cmd::NewParagraph {
        raws(b).update(0, b[0].capital)
    } else {
        raws(b)
    };
    lemma_laid_behind(head, b);
    assert forall|k: int| 0 <= k < ws.len() implies written(#[trigger] ws[k]) by {
        assert(written(b[k].raw));
    }
    if a.len() == 0 {
        assert(opened.pieces =~= Seq::empty());
        assert(rendered(opened.pieces) =~= Seq::empty());
    } else {
        lemma_rendered_before_break(a, brk);
    }
    lemma_rendered_behind(opened.pieces, ws);
    let whole = rendered(opened.pieces) + spaced(ws);
    assert(whole.last() == spaced(ws).last());
    assert(text::white('\n'));
    assert(without_trailing_breaks(whole) == whole);
    if a.len() == 0 {
        assert(whole =~= spaced(ws));
    }
}

/// "New line" puts one line break between what was said before it and what is said after
/// it. The words on both sides stay as they are, their full stops, exclamation and question
/// marks with them; only a comma right before the break gives way to it. With nothing
/// before it, it breaks nothing.
pub proof fn law_a_new_line_breaks_the_text(
    a: Seq<TokenView>,
    new: TokenView,
    line: TokenView,
    b: Seq<TokenView>,
)
    requires
        plain(a),
        plain(b),
        b.len() > 0,
        forall|k: int| 0 <= k < a.len() ==> written((#[trigger] a[k]).raw),
        forall|k: int| 0 <= k < b.len() ==> written((#[trigger] b[k]).raw),
        new.core == "new"@,
        bare(new),
        line.core == "line"@,
    ensures
        a.len() > 0 && a.last().raw.last() != ',' ==> formatted(a + (seq![new, line] + b))
            == spaced(raws(a)).push('\n') + spaced(raws(b)),
        a.len() > 0 && a.last().raw.last() == ',' ==> formatted(a + (seq![new, line] + b))
            == spaced(raws(a)).drop_last().push('\n') + spaced(raws(b)),
        a.len() == 0 ==> formatted(a + (seq![new, line] + b)) == spaced(raws(b)),
{
    lemma_broken_text(a, new, line, b, Cmd::NewLine);
    if a.len() > 0 {
        lemma_rendered_before_break(a, PieceView::LineBreak);
    }
}

/// "New paragraph" puts an empty line between what was said before it and what is said
/// after it, whose first word gets a capital. A comma right before it gives way, and
/// everything else stays. With nothing before it, it only gives the capital.
pub proof fn law_a_new_paragraph_opens_with_a_capital(
    a: Seq<TokenView>,
    new: TokenView,
    paragraph: TokenView,
    b: Seq<TokenView>,
)
    requires
        plain(a),
        plain(b),
        b.len() > 0,
        forall|k: int| 0 <= k < a.len() ==> written((#[trigger] a[k]).raw),
        forall|k: int| 0 <= k < b.len() ==> written((#[trigger] b[k]).raw),
        written(b[0].capital),
        new.core == "new"@,
        bare(new),
        paragraph.core == "paragraph"@,
    ensures
        ({
            let out = formatted(a + (seq![new, paragraph] + b));
            let opened = raws(b).update(0, b[0].capital);
            &&& a.len() > 0 && a.last().raw.last() != ',' ==> out == spaced(raws(a)).push(
                '\n',
            ).push('\n') + spaced(opened)
            &&& a.len() > 0 && a.last().raw.last() == ',' ==> out == spaced(raws(a)).drop_last().push(
                '\n',
            ).push('\n') + spaced(opened)
            &&& a.len() == 0 ==> out == spaced(opened)
        }),
{
    lemma_broken_text(a, new, paragraph, b, Cmd::NewParagraph);
    if a.len() > 0 {
        lemma_rendered_before_break(a, PieceView::ParagraphBreak);
    }
}

/// "All caps" sets the one word behind it in capitals, whatever that word is, and leaves
/// every other word as it is.
pub proof fn law_all_caps_takes_the_next_word(
    a: Seq<TokenView>,
    all: TokenView,
    caps: TokenView,
    word: TokenView,
    b: Seq<TokenView>,
)
    requires
        plain(a),
        plain(b),
        forall|k: int| 0 <= k < a.len() ==> written((#[trigger] a[k]).raw),
        forall|k: int| 0 <= k < b.len() ==> written((#[trigger] b[k]).raw),
        written(word.upper),
        all.core == "all"@,
        bare(all),
        caps.core == "caps"@,
    ensures
        formatted(a + (seq![all, caps, word] + b)) == spaced(raws(a).push(word.upper) + raws(b)),
{
    let tail = seq![all, caps, word] + b;
    assert(tail =~= seq![all] + (seq![caps, word] + b));
    lemma_said_around(a, all, seq![caps, word] + b);
    lemma_first_words();
    lemma_second_words();
    assert(tail[0] == all && tail[1] == caps && tail[2] == word);
    assert(command_at(tail, 0) == Some(Cmd::AllCaps));
    lemma_items_behind(seq![all, caps, word], b, 0);
    lemma_plain_items(b, 0);
    assert(items(b, 0) =~= plain_said(b));
    assert(items(tail, 0) =~= seq![Item::Caps(word)] + plain_said(b));
    let head = plain_said(a).push(Item::Caps(word));
    assert(items(a + tail, 0) =~= head + plain_said(b));
    assert(head.drop_last() =~= plain_said(a));
    lemma_plain_layout(a);
    lemma_laid_behind(head, b);
    lemma_words_come_out(
        laid_out(items(a + tail, 0)).pieces,
        raws(a).push(word.upper) + raws(b),
    );
}

/// "All caps" with nothing behind it says nothing.
pub proof fn law_all_caps_at_the_end_says_nothing(
    a: Seq<TokenView>,
    all: TokenView,
    caps: TokenView,
)
    requires
        plain(a),
        forall|k: int| 0 <= k < a.len() ==> written((#[trigger] a[k]).raw),
        all.core == "all"@,
        bare(all),
        caps.core == "caps"@,
    ensures
        formatted(a + seq![all, caps]) == spaced(raws(a)),
{
    let tail = seq![all, caps];
    assert(tail =~= seq![all] + seq![caps]);
    lemma_said_around(a, all, seq![caps]);
    lemma_first_words();
    lemma_second_words();
    assert(tail[0] == all && tail[1] == caps);
    assert(command_at(tail, 0) == Some(Cmd::AllCaps));
    assert(items(tail, 0) =~= Seq::empty());
    assert(items(a + tail, 0) =~= plain_said(a));
    lemma_plain_layout(a);
    lemma_words_come_out(laid_out(items(a + tail, 0)).pieces, raws(a));
}

/// Pieces that are words alone come out as these words, a space apart.
proof fn lemma_words_come_out(pieces: Seq<PieceView>, ws: Seq<Seq<char>>)
    requires
        forall|k: int| 0 <= k < ws.len() ==> written(#[trigger] ws[k]),
        pieces.len() == ws.len(),
        forall|k: int| 0 <= k < ws.len() ==> #[trigger] pieces[k] == PieceView::Word(ws[k]),
    ensures
        without_trailing_breaks(rendered(pieces)) == spaced(ws),
{
    let e = Seq::<PieceView>::empty();
    lemma_rendered_behind(e, ws);
    assert(e + Seq::new(ws.len(), |k: int| PieceView::Word(ws[k])) =~= pieces);
    assert(rendered(e) + spaced(ws) =~= spaced(ws));
    assert(text::white('\n'));
}

/// The same of transcripts: what is said before and after a spoken "new line" comes out
/// word for word, a space apart, with the one line break between the two.
pub proof fn law_a_new_line_in_a_transcript(before: Seq<char>, spoken: Seq<char>, after: Seq<char>)
    requires
        plain(tokens(before)),
        plain(tokens(after)),
        text::words(before).len() > 0,
        text::words(after).len() > 0,
        tokens(spoken).len() == 2,
        tokens(spoken)[0].core == "new"@,
        bare(tokens(spoken)[0]),
        tokens(spoken)[1].core == "line"@,
    ensures
        ({
            let out = formatted(tokens((before.push(' ') + spoken).push(' ') + after));
            let first = spaced(text::words(before));
            let kept = if text::words(before).last().last() == ',' {
                first.drop_last()
            } else {
                first
            };
            out == kept.push('\n') + spaced(text::words(after))
        }),
{
    let (a, c, b) = (tokens(before), tokens(spoken), tokens(after));
    let first = before.push(' ') + spoken;
    text::lemma_words_apart(before, spoken);
    text::lemma_words_apart(first, after);
    assert(c =~= seq![c[0], c[1]]);
    assert(tokens(first.push(' ') + after) =~= a + (seq![c[0], c[1]] + b));
    lemma_tokens_written(before);
    lemma_tokens_written(after);
    assert(raws(a) =~= text::words(before));
    assert(raws(b) =~= text::words(after));
    law_a_new_line_breaks_the_text(a, c[0], c[1], b);
}

proof fn lemma_tokens_written(s: Seq<char>)
    ensures
        forall|k: int| 0 <= k < tokens(s).len() ==> written((#[trigger] tokens(s)[k]).raw),
{
    text::lemma_words_solid(s);
    assert forall|k: int| 0 <= k < tokens(s).len() implies written((#[trigger] tokens(s)[k]).raw) by {
        let w = text::words(s)[k];
        assert(w.len() > 0);
        assert forall|i: int| 0 <= i < w.len() implies !text::white(#[trigger] w[i]) by {
            assert(!text::white(text::words(s)[k][i]));
        }
    }
}

/// A sentence closes with a word that ends in a full stop, an exclamation mark or a
/// question mark, and with no other.
pub proof fn law_what_closes_a_sentence(tok: TokenView)
    ensures
        closes(tok) <==> tok.raw.len() > 0 && (tok.raw.last() == '.' || tok.raw.last() == '!'
            || tok.raw.last() == '?'),
{
}

/// A break ends a segment, so that "scratch that" behind it takes back no word before it.
pub proof fn law_scratch_stops_at_a_break(pieces: Seq<PieceView>, segment: Seq<Seq<char>>)
    requires
        pieces.len() > 0,
        !(pieces.last() is Word),
        segment.len() > 0,
        forall|k: int|
            0 <= k < segment.len() - 1 ==> (#[trigger] segment[k]).len() > 0 && segment[k].last()
                != '.' && segment[k].last() != '!' && segment[k].last() != '?',
    ensures
        scratched(pieces + Seq::new(segment.len(), |k: int| PieceView::Word(segment[k]))) == pieces,
{
    let all = pieces + Seq::new(segment.len(), |k: int| PieceView::Word(segment[k]));
    let n = pieces.len() as int;
    let cut = all.drop_last();
    assert(cut[n - 1] == pieces.last());
    assert forall|k: int| n <= k < cut.len() implies !boundary(#[trigger] cut[k]) by {
        assert(cut[k] == PieceView::Word(segment[k - n]));
        assert(segment[k - n].len() > 0);
    }
    lemma_back_to(cut, n);
    assert(cut.take(n) =~= pieces);
}

/// A capital is due only right behind a paragraph break: any word and any line break takes
/// it back, and taking words back leaves it as it was.
pub proof fn law_when_a_capital_is_due(said_items: Seq<Item>, item: Item)
    ensures
        !laid_out(Seq::empty()).capitalize,
        laid_out(said_items.push(item)).capitalize == (match item {
            Item::ParagraphBreak => true,
            Item::Scratch => laid_out(said_items).capitalize,
            _ => false,
        }),
{
    assert(said_items.push(item).drop_last() =~= said_items);
}

/// The core of a word is what is left when everything before its first and behind its last
/// alphanumeric character is taken off, and nothing from in between.
pub proof fn law_the_core_is_the_alphanumeric_middle(
    lead: Seq<char>,
    middle: Seq<char>,
    tail: Seq<char>,
)
    requires
        forall|i: int| 0 <= i < lead.len() ==> !text::alphanumeric(#[trigger] lead[i]),
        forall|i: int| 0 <= i < tail.len() ==> !text::alphanumeric(#[trigger] tail[i]),
        middle.len() > 0,
        text::alphanumeric(middle[0]),
        text::alphanumeric(middle.last()),
    ensures
        token_of(lead + middle + tail).core == text::lowercase(middle),
{
    lemma_core(lead, middle, tail);
}

proof fn lemma_core(lead: Seq<char>, middle: Seq<char>, tail: Seq<char>)
    requires
        forall|i: int| 0 <= i < lead.len() ==> !text::alphanumeric(#[trigger] lead[i]),
        forall|i: int| 0 <= i < tail.len() ==> !text::alphanumeric(#[trigger] tail[i]),
        middle.len() > 0,
        text::alphanumeric(middle[0]),
        text::alphanumeric(middle.last()),
    ensures
        core_end(core_start(lead + middle + tail)) == middle,
    decreases lead.len() + tail.len(),
{
    let s = lead + middle + tail;
    if lead.len() > 0 {
        assert(!text::alphanumeric(lead[0]));
        assert(s[0] == lead[0]);
        assert(s.skip(1) =~= lead.skip(1) + middle + tail);
        assert forall|i: int| 0 <= i < lead.skip(1).len() implies !text::alphanumeric(
            #[trigger] lead.skip(1)[i],
        ) by {
            assert(!text::alphanumeric(lead[i + 1]));
        }
        lemma_core(lead.skip(1), middle, tail);
    } else if tail.len() > 0 {
        assert(s =~= middle + tail);
        assert(s[0] == middle[0]);
        assert(!text::alphanumeric(tail[tail.len() - 1]));
        assert(s.last() == tail.last());
        let short = lead + middle + tail.drop_last();
        assert(s.drop_last() =~= short);
        assert(short[0] == middle[0]);
        assert forall|i: int| 0 <= i < tail.drop_last().len() implies !text::alphanumeric(
            #[trigger] tail.drop_last()[i],
        ) by {
            assert(!text::alphanumeric(tail[i]));
        }
        lemma_core(lead, middle, tail.drop_last());
    } else {
        assert(s =~= middle);
    }
}

/// The tokens of a transcript are its words, one for one: each as it was written, in
/// capitals, and with its first character in capitals and the rest as it was.
pub proof fn law_every_word_is_a_token(s: Seq<char>, i: int)
    requires
        0 <= i < text::words(s).len(),
        text::words(s)[i].len() > 0,
    ensures
        tokens(s).len() == text::words(s).len(),
        tokens(s)[i].raw == text::words(s)[i],
        tokens(s)[i].upper == text::uppercase(text::words(s)[i]),
        tokens(s)[i].capital == text::char_uppercase(text::words(s)[i][0]) + text::words(
            s,
        )[i].skip(1),
{
}

/// Breaks add up: a line break is one line break and a paragraph break two, however many
/// have gone before, and the words before them are not touched again.
pub proof fn law_breaks_add_up(pieces: Seq<PieceView>, first: PieceView, second: PieceView)
    requires
        pieces.len() > 0,
        !(first is Word),
        !(second is Word),
    ensures
        broken(broken(pieces, first), second) == broken(pieces, first).push(second),
        rendered(pieces.push(PieceView::LineBreak)) == rendered(pieces).push('\n'),
        rendered(pieces.push(PieceView::ParagraphBreak)) == rendered(pieces).push('\n').push('\n'),
        boundary(first),
{
    assert(pieces.push(PieceView::LineBreak).drop_last() =~= pieces);
    assert(pieces.push(PieceView::ParagraphBreak).drop_last() =~= pieces);
}

/// A break with nothing behind it is dropped, and the comma before it with it.
pub proof fn law_a_break_at_the_end_is_dropped(
    a: Seq<TokenView>,
    new: TokenView,
    second: TokenView,
)
    requires
        plain(a),
        a.len() > 0,
        forall|k: int| 0 <= k < a.len() ==> written((#[trigger] a[k]).raw),
        a.last().raw != seq![','],
        new.core == "new"@,
        bare(new),
        second.core == "line"@ || second.core == "paragraph"@,
    ensures
        formatted(a + seq![new, second]) == (if a.last().raw.last() == ',' {
            spaced(raws(a)).drop_last()
        } else {
            spaced(raws(a))
        }),
{
    let tail = seq![new, second];
    assert(tail =~= seq![new] + seq![second]);
    lemma_said_around(a, new, seq![second]);
    lemma_first_words();
    lemma_second_words();
    assert(tail[0] == new && tail[1] == second);
    let (item, brk) = if second.core == "line"@ {
        (Item::LineBreak, PieceView::LineBreak)
    } else {
        (Item::ParagraphBreak, PieceView::ParagraphBreak)
    };
    assert(items(tail, 2) =~= Seq::empty());
    assert(items(tail, 0) =~= seq![item]);
    let all = plain_said(a).push(item);
    assert(items(a + tail, 0) =~= all);
    assert(all.drop_last() =~= plain_said(a));
    lemma_plain_layout(a);
    lemma_rendered_before_break(a, brk);
    let text = spaced(raws(a));
    let kept = if text.last() == ',' {
        text.drop_last()
    } else {
        text
    };
    lemma_before_the_comma(a);
    assert(kept.push('\n').drop_last() =~= kept);
    assert(kept.push('\n').push('\n').drop_last() =~= kept.push('\n'));
    assert(text::white('\n'));
    assert(without_trailing_breaks(kept) == kept);
    assert(without_trailing_breaks(kept.push('\n')) == kept);
}

/// What stands before the comma at the end of plain words is no white space.
proof fn lemma_before_the_comma(a: Seq<TokenView>)
    requires
        a.len() > 0,
        forall|k: int| 0 <= k < a.len() ==> written((#[trigger] a[k]).raw),
        a.last().raw != seq![','],
    ensures
        !text::white(spaced(raws(a)).last()),
        spaced(raws(a)).last() == ',' ==> spaced(raws(a)).len() > 1 && !text::white(
            spaced(raws(a)).drop_last().last(),
        ),
{
    let ws = raws(a);
    let w = ws.last();
    assert(written(a[a.len() - 1].raw));
    assert(w == a.last().raw);
    assert(!text::white(w[w.len() - 1]));
    if w.last() == ',' {
        if w.len() == 1 {
            assert(w =~= seq![',']);
        }
        assert(!text::white(w[w.len() - 2]));
    }
    let s = spaced(ws);
    if ws.len() > 1 {
        let before = spaced(ws.drop_last()).push(' ');
        assert(s == before + w);
        assert(s[s.len() - 1] == w[w.len() - 1]);
        if w.len() > 1 {
            assert(s[s.len() - 2] == w[w.len() - 2]);
        }
    } else {
        assert(s == ws[0]);
    }
}

} // verus!
