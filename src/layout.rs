use vstd::prelude::*;

verus! {

/// `n` spaces.
pub open spec fn spaces(n: nat) -> Seq<char> {
    Seq::new(n, |i: int| ' ')
}

/// `s` padded on the left with spaces to at least `w` characters.
pub open spec fn align_right(s: Seq<char>, w: nat) -> Seq<char> {
    if s.len() < w {
        spaces((w - s.len()) as nat) + s
    } else {
        s
    }
}

/// `s` padded on the right with spaces to at least `w` characters.
pub open spec fn align_left(s: Seq<char>, w: nat) -> Seq<char> {
    if s.len() < w {
        s + spaces((w - s.len()) as nat)
    } else {
        s
    }
}

/// Pads `s` on the left with spaces to at least `w` characters.
pub fn pad_left(s: &Vec<char>, w: usize) -> (r: Vec<char>)
    ensures
        r@ == align_right(s@, w as nat),
{
    let mut r: Vec<char> = Vec::new();
    if s.len() < w {
        let n: usize = w - s.len();
        let mut i: usize = 0;
        while i < n
            invariant
                i <= n,
                r@ == spaces(i as nat),
            decreases n - i,
        {
            r.push(' ');
            i = i + 1;
            assert(r@ =~= spaces(i as nat));
        }
    }
    let mut j: usize = 0;
    let base = r.len();
    while j < s.len()
        invariant
            j <= s@.len(),
            base == r@.len() - j,
            r@ == align_right(s@, w as nat).take(base + j),
            align_right(s@, w as nat).len() == base + s@.len(),
        decreases s@.len() - j,
    {
        r.push(s[j]);
        j = j + 1;
        assert(r@ =~= align_right(s@, w as nat).take(base + j));
    }
    assert(r@ =~= align_right(s@, w as nat));
    r
}

/// Pads `s` on the right with spaces to at least `w` characters.
pub fn pad_right(s: &Vec<char>, w: usize) -> (r: Vec<char>)
    ensures
        r@ == align_left(s@, w as nat),
{
    let mut r: Vec<char> = Vec::new();
    let mut j: usize = 0;
    while j < s.len()
        invariant
            j <= s@.len(),
            r@ == s@.take(j as int),
        decreases s@.len() - j,
    {
        r.push(s[j]);
        j = j + 1;
        assert(r@ =~= s@.take(j as int));
    }
    assert(r@ =~= s@);
    let mut i: usize = s.len();
    while i < w
        invariant
            s@.len() <= i,
            w > s@.len() ==> i <= w,
            w <= s@.len() ==> i == s@.len(),
            r@ == s@ + spaces((i - s@.len()) as nat),
        decreases w - i,
    {
        r.push(' ');
        i = i + 1;
        assert(r@ =~= s@ + spaces((i - s@.len()) as nat));
    }
    assert(w <= s@.len() ==> r@ =~= s@);
    assert(r@ =~= align_left(s@, w as nat));
    r
}

/// The decimal digit for a value below ten.
pub open spec fn digit(d: nat) -> char {
    if d == 0 { '0' }
    else if d == 1 { '1' }
    else if d == 2 { '2' }
    else if d == 3 { '3' }
    else if d == 4 { '4' }
    else if d == 5 { '5' }
    else if d == 6 { '6' }
    else if d == 7 { '7' }
    else if d == 8 { '8' }
    else { '9' }
}

/// The decimal notation of `n`, without leading zeros.
pub open spec fn decimal(n: nat) -> Seq<char>
    decreases n,
{
    if n < 10 {
        seq![digit(n)]
    } else {
        decimal(n / 10).push(digit(n % 10))
    }
}

/// A signed count of milliseconds written as seconds with three decimals,
/// as `-1.250` for minus 1250 milliseconds.
pub open spec fn seconds_text(ms: int) -> Seq<char> {
    let a = if ms < 0 { -ms } else { ms };
    let frac = a % 1000;
    (if ms < 0 { seq!['-'] } else { Seq::<char>::empty() }) + decimal((a / 1000) as nat)
        + seq!['.', digit((frac / 100) as nat), digit(((frac / 10) % 10) as nat), digit((frac % 10) as nat)]
}

fn digit_char(d: u128) -> (c: char)
    requires
        d < 10,
    ensures
        c == digit(d as nat),
{
    if d == 0 { '0' }
    else if d == 1 { '1' }
    else if d == 2 { '2' }
    else if d == 3 { '3' }
    else if d == 4 { '4' }
    else if d == 5 { '5' }
    else if d == 6 { '6' }
    else if d == 7 { '7' }
    else if d == 8 { '8' }
    else { '9' }
}

fn decimal_chars(n: u128) -> (r: Vec<char>)
    ensures
        r@ == decimal(n as nat),
    decreases n,
{
    if n < 10 {
        let mut r: Vec<char> = Vec::new();
        r.push(digit_char(n));
        assert(r@ =~= decimal(n as nat));
        r
    } else {
        let mut r = decimal_chars(n / 10);
        r.push(digit_char(n % 10));
        r
    }
}

/// Writes a signed count of milliseconds as seconds with three decimals.
pub fn format_seconds(ms: i128) -> (r: Vec<char>)
    requires
        ms > i128::MIN,
    ensures
        r@ == seconds_text(ms as int),
{
    let a: u128 = if ms < 0 { (-ms) as u128 } else { ms as u128 };
    let frac: u128 = a % 1000;
    let mut r: Vec<char> = Vec::new();
    if ms < 0 {
        r.push('-');
    }
    let whole = decimal_chars(a / 1000);
    let mut i: usize = 0;
    let base = r.len();
    while i < whole.len()
        invariant
            i <= whole@.len(),
            base == r@.len() - i,
            r@ == (if ms < 0 { seq!['-'] } else { Seq::<char>::empty() }) + whole@.take(i as int),
        decreases whole@.len() - i,
    {
        r.push(whole[i]);
        i = i + 1;
        assert(r@ =~= (if ms < 0 { seq!['-'] } else { Seq::<char>::empty() }) + whole@.take(i as int));
    }
    r.push('.');
    r.push(digit_char(frac / 100));
    r.push(digit_char((frac / 10) % 10));
    r.push(digit_char(frac % 10));
    assert(whole@.take(i as int) =~= whole@);
    assert(r@ =~= seconds_text(ms as int));
    r
}

/// Position of a printed line within a record's message.
#[derive(Clone, Copy, Debug, PartialEq, Eq, Structural)]
pub enum Marker {
    /// The message fits on one line.
    Single,
    /// The first line of a wrapped message.
    First,
    /// A line between the first and the last.
    Middle,
    /// The last line of a wrapped message.
    Last,
}

/// The glyph printed before a line.
pub open spec fn marker_glyph(m: Marker) -> char {
    match m {
        Marker::Single => ' ',
        Marker::First => '┌',
        Marker::Middle => '├',
        Marker::Last => '└',
    }
}

impl Marker {
    /// The glyph printed before a line.
    pub fn glyph(&self) -> (r: char)
        ensures
            r == marker_glyph(*self),
    {
        match self {
            Marker::Single => ' ',
            Marker::First => '┌',
            Marker::Middle => '├',
            Marker::Last => '└',
        }
    }
}

/// One printed piece of a message.
#[derive(Debug)]
pub struct Chunk {
    pub marker: Marker,
    pub text: String,
}

impl View for Chunk {
    type V = (Marker, Seq<char>);

    open spec fn view(&self) -> (Marker, Seq<char>) {
        (self.marker, self.text@)
    }
}

/// `m` cut into consecutive pieces of `w` characters, the last one shorter.
pub open spec fn pieces(m: Seq<char>, w: nat) -> Seq<Seq<char>>
    decreases m.len(),
{
    if w == 0 || m.len() <= w {
        seq![m]
    } else {
        seq![m.take(w as int)] + pieces(m.skip(w as int), w)
    }
}

/// The pieces written one after the other.
pub open spec fn joined(parts: Seq<Seq<char>>) -> Seq<char>
    decreases parts.len(),
{
    if parts.len() == 0 {
        Seq::empty()
    } else {
        parts[0] + joined(parts.skip(1))
    }
}

/// Whether a message of `len` characters is wrapped: the terminal width is
/// known, the preamble leaves room, and the line would not fit.
pub open spec fn wraps(len: nat, columns: Option<usize>, preamble: usize) -> bool {
    &&& columns is Some
    &&& preamble < columns->0
    &&& preamble + len > columns->0
}

/// The marker of line `i` among `n` wrapped lines.
pub open spec fn wrap_marker(i: int, n: nat) -> Marker {
    if i == 0 {
        Marker::First
    } else if i == n - 1 {
        Marker::Last
    } else {
        Marker::Middle
    }
}

/// The lines that a message is printed as.
pub open spec fn message_lines(m: Seq<char>, columns: Option<usize>, preamble: usize) -> Seq<(Marker, Seq<char>)> {
    if wraps(m.len(), columns, preamble) {
        let p = pieces(m, (columns->0 - preamble) as nat);
        Seq::new(p.len(), |i: int| (wrap_marker(i, p.len()), p[i]))
    } else {
        seq![(Marker::Single, m)]
    }
}

proof fn lemma_pieces_len(m: Seq<char>, w: nat)
    requires
        w > 0,
    ensures
        pieces(m, w).len() >= 1,
        pieces(m, w).len() == 1 <==> m.len() <= w,
        m.len() > w ==> pieces(m, w).len() >= 2,
    decreases m.len(),
{
    if m.len() > w {
        lemma_pieces_len(m.skip(w as int), w);
    }
}

proof fn lemma_pieces_join(m: Seq<char>, w: nat)
    requires
        w > 0,
    ensures
        joined(pieces(m, w)) == m,
        forall|i: int| 0 <= i < pieces(m, w).len() ==> 0 < #[trigger] pieces(m, w)[i].len() <= w || m.len() == 0,
    decreases m.len(),
{
    if m.len() <= w {
        assert(pieces(m, w).skip(1) =~= Seq::<Seq<char>>::empty());
        assert(joined(pieces(m, w).skip(1)) == Seq::<char>::empty());
        assert(joined(pieces(m, w)) =~= m);
    } else {
        let rest = m.skip(w as int);
        lemma_pieces_join(rest, w);
        assert(pieces(m, w).skip(1) =~= pieces(rest, w));
        assert(m.take(w as int) + rest =~= m);
        assert forall|i: int| 0 <= i < pieces(m, w).len() implies 0 < #[trigger] pieces(m, w)[i].len() <= w by {
            if i > 0 {
                assert(pieces(m, w)[i] == pieces(rest, w)[i - 1]);
            }
        }
    }
}

/// Joining the printed lines of a message gives back the message; a message
/// that wraps is printed as two or more lines, the first marked `First`, the
/// last `Last` and those between `Middle`, each at most as wide as the room
/// that the preamble leaves; one that does not wrap is a single line.
pub proof fn lemma_wrap_round_trip(m: Seq<char>, columns: Option<usize>, preamble: usize)
    ensures
        joined(Seq::new(message_lines(m, columns, preamble).len(), |i: int| message_lines(m, columns, preamble)[i].1)) == m,
        wraps(m.len(), columns, preamble) ==> {
            let lines = message_lines(m, columns, preamble);
            &&& lines.len() >= 2
            &&& lines[0].0 == Marker::First
            &&& lines[lines.len() - 1].0 == Marker::Last
            &&& forall|i: int| 0 < i < lines.len() - 1 ==> #[trigger] lines[i].0 == Marker::Middle
            &&& forall|i: int| 0 <= i < lines.len() ==> (#[trigger] lines[i].1).len() <= columns->0 - preamble
        },
        !wraps(m.len(), columns, preamble) ==> message_lines(m, columns, preamble) == seq![(Marker::Single, m)],
{
    let lines = message_lines(m, columns, preamble);
    let texts = Seq::new(lines.len(), |i: int| lines[i].1);
    if wraps(m.len(), columns, preamble) {
        let w = (columns->0 - preamble) as nat;
        lemma_pieces_len(m, w);
        lemma_pieces_join(m, w);
        assert(texts =~= pieces(m, w));
        assert forall|i: int| 0 <= i < lines.len() implies (#[trigger] lines[i].1).len() <= columns->0 - preamble by {
            assert(lines[i].1 == pieces(m, w)[i]);
        }
    } else {
        assert(texts =~= seq![m]);
        assert(texts.skip(1) =~= Seq::<Seq<char>>::empty());
        assert(joined(texts.skip(1)) == Seq::<char>::empty());
        assert(joined(texts) =~= m);
    }
}

/// The lines that a message is printed as on a terminal `columns` wide (if
/// known) after a preamble `preamble` wide.
pub fn wrap_message(message: &str, columns: Option<usize>, preamble: usize) -> (r: Vec<Chunk>)
    ensures
        r@.len() == message_lines(message@, columns, preamble).len(),
        forall|i: int| 0 <= i < r@.len() ==> (#[trigger] r@[i])@ == message_lines(message@, columns, preamble)[i],
{
    let n = message.unicode_len();
    let mut out: Vec<Chunk> = Vec::new();
    let fits = match columns {
        Some(c) => preamble >= c || (n as u128) + (preamble as u128) <= (c as u128),
        None => true,
    };
    if fits {
        out.push(Chunk { marker: Marker::Single, text: message.to_owned() });
        return out;
    }
    let c = match columns {
        Some(c) => c,
        None => 0,
    };
    let w: usize = c - preamble;
    let ghost m = message@;
    let ghost all = pieces(m, w as nat);
    proof {
        lemma_pieces_len(m, w as nat);
    }
    let mut pos: usize = 0;
    assert(m.skip(0) =~= m);
    assert(all =~= Seq::new(0, |i: int| all[i]) + pieces(m.skip(0), w as nat));
    while pos < n
        invariant
            m == message@,
            n == m.len(),
            w > 0,
            all == pieces(m, w as nat),
            wraps(m.len(), columns, preamble),
            w == columns->0 - preamble,
            pos <= n,
            pos == 0 <==> out@.len() == 0,
            out@.len() + (if pos < n { pieces(m.skip(pos as int), w as nat).len() } else { 0 }) == all.len(),
            pos < n ==> all =~= Seq::new(out@.len() as nat, |i: int| all[i]) + pieces(m.skip(pos as int), w as nat),
            forall|i: int| 0 <= i < out@.len() ==> (#[trigger] out@[i])@ == (wrap_marker(i, all.len()), all[i]),
        decreases n - pos,
    {
        let ghost rest = m.skip(pos as int);
        proof {
            lemma_pieces_len(rest, w as nat);
        }
        let last = n - pos <= w;
        let end: usize = if last { n } else { pos + w };
        let marker = if pos == 0 {
            Marker::First
        } else if last {
            Marker::Last
        } else {
            Marker::Middle
        };
        let piece = message.substring_char(pos, end);
        let ghost k = out@.len() as int;
        assert(all[k] == pieces(rest, w as nat)[0]);
        if last {
            assert(piece@ =~= rest);
        } else {
            assert(piece@ =~= rest.take(w as int));
            assert(rest.skip(w as int) =~= m.skip(end as int));
        }
        assert(marker == wrap_marker(k, all.len()));
        out.push(Chunk { marker, text: piece.to_owned() });
        pos = end;
        proof {
            if pos < n {
                assert(pieces(rest, w as nat) =~= seq![rest.take(w as int)] + pieces(m.skip(pos as int), w as nat));
                assert(all =~= Seq::new(out@.len() as nat, |i: int| all[i]) + pieces(m.skip(pos as int), w as nat));
            }
        }
    }
    proof {
        assert(message_lines(m, columns, preamble) =~= Seq::new(all.len(), |i: int| (wrap_marker(i, all.len()), all[i])));
    }
    out
}

} // verus!
