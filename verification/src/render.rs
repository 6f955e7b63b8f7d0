use vstd::prelude::*;
use crate::game::Game;
use crate::game::Point;
use crate::game::contains_point;

verus! {

/// The character for one decimal digit.
pub open spec fn digit_char(d: int) -> char {
    if d == 0 {
        '0'
    } else if d == 1 {
        '1'
    } else if d == 2 {
        '2'
    } else if d == 3 {
        '3'
    } else if d == 4 {
        '4'
    } else if d == 5 {
        '5'
    } else if d == 6 {
        '6'
    } else if d == 7 {
        '7'
    } else if d == 8 {
        '8'
    } else {
        '9'
    }
}

/// The decimal representation of `n`, most significant digit first, without
/// leading zeros (zero itself is a single '0').
pub open spec fn dec_rep(n: nat) -> Seq<char>
    decreases n,
{
    if n < 10 {
        seq![digit_char(n as int)]
    } else {
        dec_rep(n / 10) + seq![digit_char((n % 10) as int)]
    }
}

fn digit_to_char(d: usize) -> (c: char)
    requires
        d < 10,
    ensures
        c == digit_char(d as int),
{
    match d {
        0 => '0',
        1 => '1',
        2 => '2',
        3 => '3',
        4 => '4',
        5 => '5',
        6 => '6',
        7 => '7',
        8 => '8',
        _ => '9',
    }
}

/// Appends the decimal digits of `n`.
pub fn push_decimal(v: &mut Vec<char>, n: usize)
    ensures
        final(v)@ == old(v)@ + dec_rep(n as nat),
    decreases n,
{
    if n >= 10 {
        push_decimal(v, n / 10);
    }
    let c = digit_to_char(n % 10);
    v.push(c);
    proof {
        assert(v@ =~= old(v)@ + dec_rep(n as nat));
    }
}

spec fn pow10(k: nat) -> nat
    decreases k,
{
    if k == 0 {
        1
    } else {
        10 * pow10((k - 1) as nat)
    }
}

proof fn lemma_dec_rep_len(n: nat, k: nat)
    requires
        1 <= k,
        n < pow10(k),
    ensures
        dec_rep(n).len() <= k,
    decreases n,
{
    if n >= 10 {
        assert(pow10(k) == 10 * pow10((k - 1) as nat));
        if k == 1 {
            assert(pow10(0) == 1);
            assert(false);
        }
        vstd::arithmetic::div_mod::lemma_fundamental_div_mod(n as int, 10);
        assert(n / 10 < pow10((k - 1) as nat));
        lemma_dec_rep_len(n / 10, (k - 1) as nat);
    }
}

/// A `usize` has at most twenty decimal digits.
proof fn lemma_dec_rep_len_usize(n: nat)
    requires
        n <= usize::MAX,
    ensures
        dec_rep(n).len() <= 20,
{
    reveal_with_fuel(pow10, 21);
    assert(pow10(20) == 100000000000000000000nat);
    lemma_dec_rep_len(n, 20);
}

/// The score line written over the top wall: " Score: N ".
pub open spec fn score_label(score: nat) -> Seq<char> {
    seq![' ', 'S', 'c', 'o', 'r', 'e', ':', ' '] + dec_rep(score) + seq![' ']
}

/// The line shown once the game is over:
/// "Game Over! Final Score: N. Press Q to quit."
pub open spec fn game_over_label(score: nat) -> Seq<char> {
    seq![
        'G',
        'a',
        'm',
        'e',
        ' ',
        'O',
        'v',
        'e',
        'r',
        '!',
        ' ',
        'F',
        'i',
        'n',
        'a',
        'l',
        ' ',
        'S',
        'c',
        'o',
        'r',
        'e',
        ':',
        ' ',
    ] + dec_rep(score) + seq!['.', ' ', 'P', 'r', 'e', 's', 's', ' ', 'Q', ' ', 't', 'o', ' ', 'q', 'u', 'i', 't', '.']
}

/// Where a line of `len` characters starts: centered when it fits the
/// width, clamped to the left wall when it does not.
pub open spec fn message_col(width: int, len: int) -> int {
    if len < width {
        width / 2 - len / 2
    } else {
        0
    }
}

/// How many cells row `y` of the frame holds: `width` everywhere, except
/// that a row carrying a text line keeps the line whole even when it is
/// wider than the board — the terminal write runs past the right wall, so
/// the frame does too.
pub open spec fn row_len(g: Game, y: int) -> int {
    let sl = score_label(g.score as nat);
    let go = game_over_label(g.score as nat);
    let c0 = message_col(g.width as int, go.len() as int);
    let w = g.width as int;
    if y == 0 && 2 + sl.len() > w {
        2 + sl.len() as int
    } else if g.game_over && y == g.height as int / 2 && c0 + go.len() > w {
        c0 + go.len() as int
    } else {
        w
    }
}

/// What a cell shows before any text overlay, in priority order: wall,
/// snake head, snake body, food, blank.
pub open spec fn base_glyph(g: Game, x: int, y: int) -> char {
    let p = Point { x: x as i32, y: y as i32 };
    if y == 0 || x == 0 || x == g.width - 1 || y == g.height - 1 {
        '\u{2588}'
    } else if g.snake@[0] == p {
        '\u{25a0}'
    } else if g.snake@.contains(p) {
        '\u{25a1}'
    } else if g.food == p {
        '\u{25cf}'
    } else {
        ' '
    }
}

/// What a cell of the finished frame shows: the score line overlays the top
/// wall from column 2 on, the game-over line overlays the middle row once
/// the game is over, everything else shows its base glyph. A line wider
/// than the board keeps running past the right wall (see `row_len`).
pub open spec fn frame_char(g: Game, x: int, y: int) -> char {
    let sl = score_label(g.score as nat);
    let go = game_over_label(g.score as nat);
    let c0 = message_col(g.width as int, go.len() as int);
    if y == 0 && 2 <= x < 2 + sl.len() {
        sl[x - 2]
    } else if g.game_over && y == g.height as int / 2 && c0 <= x < c0 + go.len() {
        go[x - c0]
    } else {
        base_glyph(g, x, y)
    }
}

/// Builds " Score: N ".
pub fn build_score_label(score: usize) -> (v: Vec<char>)
    ensures
        v@ == score_label(score as nat),
        v@.len() <= 29,
{
    proof {
        lemma_dec_rep_len_usize(score as nat);
    }
    let mut v: Vec<char> = Vec::new();
    v.push(' ');
    v.push('S');
    v.push('c');
    v.push('o');
    v.push('r');
    v.push('e');
    v.push(':');
    v.push(' ');
    assert(v@ =~= seq![' ', 'S', 'c', 'o', 'r', 'e', ':', ' ']);
    push_decimal(&mut v, score);
    v.push(' ');
    proof {
        assert(v@ =~= score_label(score as nat));
    }
    v
}

/// Builds "Game Over! Final Score: N. Press Q to quit.".
pub fn build_game_over_label(score: usize) -> (v: Vec<char>)
    ensures
        v@ == game_over_label(score as nat),
        v@.len() <= 62,
{
    proof {
        lemma_dec_rep_len_usize(score as nat);
    }
    let mut v: Vec<char> = Vec::new();
    v.push('G');
    v.push('a');
    v.push('m');
    v.push('e');
    v.push(' ');
    v.push('O');
    v.push('v');
    v.push('e');
    v.push('r');
    v.push('!');
    v.push(' ');
    v.push('F');
    v.push('i');
    v.push('n');
    v.push('a');
    v.push('l');
    v.push(' ');
    v.push('S');
    v.push('c');
    v.push('o');
    v.push('r');
    v.push('e');
    v.push(':');
    v.push(' ');
    assert(v@ =~= seq![
        'G',
        'a',
        'm',
        'e',
        ' ',
        'O',
        'v',
        'e',
        'r',
        '!',
        ' ',
        'F',
        'i',
        'n',
        'a',
        'l',
        ' ',
        'S',
        'c',
        'o',
        'r',
        'e',
        ':',
        ' ',
    ]);
    push_decimal(&mut v, score);
    v.push('.');
    v.push(' ');
    v.push('P');
    v.push('r');
    v.push('e');
    v.push('s');
    v.push('s');
    v.push(' ');
    v.push('Q');
    v.push(' ');
    v.push('t');
    v.push('o');
    v.push(' ');
    v.push('q');
    v.push('u');
    v.push('i');
    v.push('t');
    v.push('.');
    proof {
        assert(v@ =~= game_over_label(score as nat));
    }
    v
}

/// How many cells row `y` holds, as `row_len` says.
fn row_length(g: &Game, y: i32, sl: &Vec<char>, go: &Vec<char>) -> (rl: i32)
    requires
        g.well_formed(),
        0 <= y < g.height,
        sl@ == score_label(g.score as nat),
        go@ == game_over_label(g.score as nat),
        sl@.len() <= 29,
        go@.len() <= 62,
    ensures
        rl as int == row_len(*g, y as int),
        g.width <= rl,
{
    if y == 0 {
        let end = 2 + sl.len() as i32;
        if end > g.width {
            return end;
        }
        return g.width;
    }
    if g.game_over && y == g.height / 2 {
        let c0: i32 = if go.len() < g.width as usize {
            g.width / 2 - (go.len() as i32) / 2
        } else {
            0
        };
        assert(c0 == message_col(g.width as int, go@.len() as int));
        let end = c0 + go.len() as i32;
        if end > g.width {
            return end;
        }
    }
    g.width
}

fn frame_cell(g: &Game, x: i32, y: i32, sl: &Vec<char>, go: &Vec<char>) -> (c: char)
    requires
        g.well_formed(),
        0 <= y < g.height,
        0 <= x < row_len(*g, y as int),
        sl@ == score_label(g.score as nat),
        go@ == game_over_label(g.score as nat),
    ensures
        c == frame_char(*g, x as int, y as int),
{
    if y == 0 && x >= 2 && ((x - 2) as usize) < sl.len() {
        return sl[(x - 2) as usize];
    }
    if g.game_over && y == g.height / 2 {
        let c0: i32 = if go.len() < g.width as usize {
            g.width / 2 - (go.len() as i32) / 2
        } else {
            0
        };
        assert(c0 == message_col(g.width as int, go@.len() as int));
        if x >= c0 && ((x - c0) as usize) < go.len() {
            return go[(x - c0) as usize];
        }
    }
    if y == 0 || x == 0 || x == g.width - 1 || y == g.height - 1 {
        return '\u{2588}';
    }
    let p = Point { x, y };
    let head = g.snake[0];
    if head == p {
        '\u{25a0}'
    } else if contains_point(&g.snake, p) {
        '\u{25a1}'
    } else if g.food == p {
        '\u{25cf}'
    } else {
        ' '
    }
}

/// One full frame of the board: `height` rows, row `y` holding `row_len`
/// characters (at least `width`; more where a text line runs past the right
/// wall), each cell showing exactly what `frame_char` says. The driver
/// writes the rows out unchanged, top to bottom.
pub fn render_frame(g: &Game) -> (r: Vec<Vec<char>>)
    requires
        g.well_formed(),
    ensures
        r@.len() == g.height as int,
        forall|y: int| 0 <= y < g.height as int ==> (#[trigger] r@[y])@.len() == row_len(*g, y),
        forall|y: int, x: int|
            0 <= y < g.height as int && 0 <= x < row_len(*g, y) ==> #[trigger] r@[y]@[x]
                == frame_char(*g, x, y),
{
    let sl = build_score_label(g.score);
    let go = build_game_over_label(g.score);
    let mut r: Vec<Vec<char>> = Vec::new();
    let mut y: i32 = 0;
    while y < g.height
        invariant
            g.well_formed(),
            sl@ == score_label(g.score as nat),
            go@ == game_over_label(g.score as nat),
            sl@.len() <= 29,
            go@.len() <= 62,
            0 <= y <= g.height,
            r@.len() == y as int,
            forall|yy: int| 0 <= yy < y as int ==> (#[trigger] r@[yy])@.len() == row_len(*g, yy),
            forall|yy: int, x: int|
                0 <= yy < y as int && 0 <= x < row_len(*g, yy) ==> #[trigger] r@[yy]@[x]
                    == frame_char(*g, x, yy),
        decreases g.height - y,
    {
        let rl = row_length(g, y, &sl, &go);
        let mut row: Vec<char> = Vec::new();
        let mut x: i32 = 0;
        while x < rl
            invariant
                g.well_formed(),
                sl@ == score_label(g.score as nat),
                go@ == game_over_label(g.score as nat),
                0 <= y < g.height,
                rl as int == row_len(*g, y as int),
                0 <= x <= rl,
                row@.len() == x as int,
                forall|xx: int|
                    0 <= xx < x as int ==> #[trigger] row@[xx] == frame_char(*g, xx, y as int),
            decreases rl - x,
        {
            let c = frame_cell(g, x, y, &sl, &go);
            row.push(c);
            x = x + 1;
        }
        r.push(row);
        y = y + 1;
    }
    r
}

} // verus!
