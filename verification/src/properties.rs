//! The file `server.properties`: which world the server loads, and on which
//! port it listens.

use vstd::prelude::*;

use crate::text::{
    chars_of, is_blank, parse_u16, read_u16, starts_with, text_of, trim, trimmed,
};

verus! {

/// The world that the server loads.
pub const WORLD_NAME: &'static str = "Werewolf";

/// The port on which a server listens unless its properties say otherwise.
pub const DEFAULT_PORT: u16 = 19132;

/// The position of the first `c` in `text`, or the length of `text`.
pub open spec fn first_position(text: Seq<char>, c: char) -> nat
    decreases text.len(),
{
    if text.len() == 0 || text[0] == c {
        0
    } else {
        1 + first_position(text.skip(1), c)
    }
}

/// `line` without a carriage return at its end.
pub open spec fn without_return(line: Seq<char>) -> Seq<char> {
    if line.len() > 0 && line.last() == '\r' {
        line.drop_last()
    } else {
        line
    }
}

/// The lines of `text`. A line ends at a line feed, which may follow a carriage
/// return; the last line may end with the text.
pub open spec fn lines(text: Seq<char>) -> Seq<Seq<char>>
    decreases text.len(),
{
    let end = first_position(text, '\n') as int;
    if text.len() == 0 {
        Seq::empty()
    } else if end >= text.len() {
        seq![text]
    } else {
        seq![without_return(text.take(end))] + lines(text.skip(end + 1))
    }
}

/// Whether `line` names a world.
pub open spec fn names_world(line: Seq<char>) -> bool {
    "level-name="@.is_prefix_of(line)
}

/// The line that names [`WORLD_NAME`].
pub open spec fn world_line() -> Seq<char> {
    "level-name="@ + WORLD_NAME@
}

/// The line that takes the place of `line`.
pub open spec fn settled_line(line: Seq<char>) -> Seq<char> {
    if names_world(line) {
        world_line()
    } else {
        line
    }
}

/// The lines that take the place of `given`: every line that names a world names
/// [`WORLD_NAME`], and if there was none, one is added at the end.
pub open spec fn settled_lines(given: Seq<Seq<char>>) -> Seq<Seq<char>> {
    let kept = given.map_values(|line: Seq<char>| settled_line(line));
    if exists|i: int| 0 <= i < given.len() && names_world(#[trigger] given[i]) {
        kept
    } else {
        kept.push(world_line())
    }
}

/// The text whose lines are `given`, each ended by a line feed.
pub open spec fn unlines(given: Seq<Seq<char>>) -> Seq<char>
    decreases given.len(),
{
    if given.len() == 0 {
        Seq::empty()
    } else {
        unlines(given.drop_last()) + given.last().push('\n')
    }
}

/// The properties that take the place of `content`.
pub open spec fn settled_properties(content: Seq<char>) -> Seq<char> {
    unlines(settled_lines(lines(content)))
}

/// The port that `line` gives, if it gives one.
pub open spec fn port_in_line(line: Seq<char>) -> Option<u16> {
    if "server-port="@.is_prefix_of(line) {
        parse_u16(trim(line.skip("server-port="@.len() as int)))
    } else {
        None
    }
}

/// The port of the first of `given` that gives one.
pub open spec fn first_port(given: Seq<Seq<char>>) -> Option<u16>
    decreases given.len(),
{
    if given.len() == 0 {
        None
    } else if port_in_line(given[0]) is Some {
        port_in_line(given[0])
    } else {
        first_port(given.skip(1))
    }
}

/// The port that the properties `content` give, or [`DEFAULT_PORT`].
pub open spec fn port_of(content: Seq<char>) -> u16 {
    match first_port(lines(content)) {
        Some(port) => port,
        None => DEFAULT_PORT,
    }
}

proof fn lemma_first_position(text: Seq<char>, c: char)
    ensures
        0 <= first_position(text, c) <= text.len(),
        forall|i: int| 0 <= i < first_position(text, c) ==> text[i] != c,
        first_position(text, c) < text.len() ==> text[first_position(text, c) as int] == c,
    decreases text.len(),
{
    if text.len() > 0 && text[0] != c {
        lemma_first_position(text.skip(1), c);
        assert forall|i: int| 0 <= i < first_position(text, c) implies text[i] != c by {
            if i > 0 {
                assert(text[i] == text.skip(1)[i - 1]);
            }
        }
    }
}

proof fn lemma_first_position_is(text: Seq<char>, c: char, k: int)
    requires
        0 <= k < text.len(),
        text[k] == c,
        forall|i: int| 0 <= i < k ==> text[i] != c,
    ensures
        first_position(text, c) == k,
{
    lemma_first_position(text, c);
    let found = first_position(text, c) as int;
    if found < k {
        assert(text[found] != c);
    }
}

/// The first line of a text that begins with `line` and a line feed.
proof fn lemma_lines_of_line(line: Seq<char>, rest: Seq<char>)
    requires
        !line.contains('\n'),
    ensures
        lines(line.push('\n') + rest) == seq![without_return(line)] + lines(rest),
{
    let text = line.push('\n') + rest;
    let k = line.len() as int;
    assert forall|i: int| 0 <= i < k implies text[i] != '\n' by {
        assert(line.contains(line[i]));
    }
    lemma_first_position_is(text, '\n', k);
    assert(text.take(k) =~= line);
    assert(text.skip(k + 1) =~= rest);
}

proof fn lemma_lines_hold_no_line_feed(text: Seq<char>)
    ensures
        forall|i: int| 0 <= i < lines(text).len() ==> !(#[trigger] lines(text)[i]).contains('\n'),
    decreases text.len(),
{
    lemma_first_position(text, '\n');
    let end = first_position(text, '\n') as int;
    if text.len() == 0 {
    } else if end >= text.len() {
        assert(!text.contains('\n'));
    } else {
        let head = without_return(text.take(end));
        assert forall|i: int| 0 <= i < head.len() implies head[i] != '\n' by {
            assert(head[i] == text[i]);
        }
        lemma_lines_hold_no_line_feed(text.skip(end + 1));
        assert forall|i: int| 0 <= i < lines(text).len() implies !(
        #[trigger] lines(text)[i]).contains('\n') by {
            if i > 0 {
                assert(lines(text)[i] == lines(text.skip(end + 1))[i - 1]);
            }
        }
    }
}

/// Joining lines and splitting them again only takes carriage returns off.
proof fn lemma_lines_of_unlines(given: Seq<Seq<char>>, rest: Seq<char>)
    requires
        forall|i: int| 0 <= i < given.len() ==> !(#[trigger] given[i]).contains('\n'),
    ensures
        lines(unlines(given) + rest) == given.map_values(|line: Seq<char>| without_return(line))
            + lines(rest),
    decreases given.len(),
{
    let clean = |line: Seq<char>| without_return(line);
    if given.len() == 0 {
        assert(unlines(given) + rest =~= rest);
        assert(given.map_values(clean) + lines(rest) =~= lines(rest));
    } else {
        let front = given.drop_last();
        let last = given.last();
        assert forall|i: int| 0 <= i < front.len() implies !(#[trigger] front[i]).contains('\n') by {
            assert(front[i] == given[i]);
        }
        assert(given[given.len() - 1] == last);
        lemma_lines_of_unlines(front, last.push('\n') + rest);
        lemma_lines_of_line(last, rest);
        assert(unlines(given) + rest =~= unlines(front) + (last.push('\n') + rest));
        assert(given.map_values(clean) + lines(rest) =~= front.map_values(clean) + (seq![
            without_return(last),
        ] + lines(rest)));
    }
}

/// The sequences that a vector of vectors holds.
pub open spec fn views(given: Seq<Vec<char>>) -> Seq<Seq<char>> {
    given.map_values(|line: Vec<char>| line@)
}

/// Splits `text` into its lines.
fn lines_of(text: &str) -> (split: Vec<Vec<char>>)
    ensures
        views(split@) == lines(text@),
{
    let chars: Vec<char> = chars_of(text);
    let mut split: Vec<Vec<char>> = Vec::new();
    let mut start: usize = 0;
    assert(chars@.skip(0) == chars@);
    assert(views(split@) + lines(chars@) =~= lines(chars@));
    while start < chars.len()
        invariant
            start <= chars@.len(),
            views(split@) + lines(chars@.skip(start as int)) == lines(chars@),
        decreases chars@.len() - start,
    {
        let ghost rest = chars@.skip(start as int);
        let ghost done = split@;
        let mut line: Vec<char> = Vec::new();
        let mut end: usize = start;
        while end < chars.len() && chars[end] != '\n'
            invariant
                start <= end <= chars@.len(),
                line@ == chars@.subrange(start as int, end as int),
                forall|k: int| start <= k < end ==> chars@[k] != '\n',
            decreases chars@.len() - end,
        {
            line.push(chars[end]);
            end += 1;
            assert(line@ =~= chars@.subrange(start as int, end as int));
        }
        proof {
            lemma_first_position(rest, '\n');
            if end < chars@.len() {
                assert(rest[end - start] == '\n');
                lemma_first_position_is(rest, '\n', end - start);
            } else {
                let found = first_position(rest, '\n') as int;
                if found < rest.len() {
                    assert(rest[found] == chars@[start + found]);
                }
            }
        }
        if end == chars.len() {
            assert(line@ =~= rest);
            split.push(line);
            start = end;
            proof {
                assert(views(split@) =~= views(done).push(rest));
                assert(views(split@) + lines(chars@.skip(start as int)) =~= views(done) + lines(
                    rest,
                ));
            }
        } else {
            assert(line@ =~= rest.take(end - start));
            if line.len() > 0 && line[line.len() - 1] == '\r' {
                line.pop();
                assert(line@ =~= without_return(rest.take(end - start)));
            }
            split.push(line);
            start = end + 1;
            proof {
                let head = without_return(rest.take(end - chars@.len() + rest.len()));
                assert(rest.skip(end - chars@.len() + rest.len() + 1) =~= chars@.skip(
                    start as int,
                ));
                assert(views(split@) =~= views(done).push(head));
                assert(views(split@) + lines(chars@.skip(start as int)) =~= views(done) + (seq![
                    head,
                ] + lines(chars@.skip(start as int))));
            }
        }
    }
    assert(views(split@) + lines(chars@.skip(start as int)) =~= views(split@));
    split
}

/// The properties that take the place of `content`: the server is to load
/// [`WORLD_NAME`], and every other line stays as it is.
pub fn ensure_server_properties(content: &str) -> (output: String)
    ensures
        output@ == settled_properties(content@),
{
    let split: Vec<Vec<char>> = lines_of(content);
    let ghost given = lines(content@);
    let ghost kept = given.map_values(|line: Seq<char>| settled_line(line));
    let mut found: bool = false;
    let mut output = String::new();
    let mut i: usize = 0;
    while i < split.len()
        invariant
            views(split@) == given,
            kept == given.map_values(|line: Seq<char>| settled_line(line)),
            i <= split@.len(),
            found == exists|k: int| 0 <= k < i && names_world(#[trigger] given[k]),
            output@ == unlines(kept.take(i as int)),
        decreases split@.len() - i,
    {
        let line: &Vec<char> = &split[i];
        assert(line@ == given[i as int]);
        proof {
            assert(kept.take(i + 1).drop_last() =~= kept.take(i as int));
            assert(kept.take(i + 1).last() == settled_line(given[i as int]));
        }
        let ghost before = output@;
        if starts_with(line.as_slice(), "level-name=") {
            output.append("level-name=");
            output.append(WORLD_NAME);
            output.push('\n');
            assert(output@ =~= before + world_line().push('\n'));
            found = true;
        } else {
            let copy: String = text_of(line.as_slice(), 0, line.len());
            output.append(copy.as_str());
            output.push('\n');
            assert(line@.subrange(0, line@.len() as int) =~= line@);
            assert(output@ =~= before + line@.push('\n'));
        }
        i += 1;
    }
    assert(kept.take(i as int) =~= kept);
    if !found {
        let ghost before = output@;
        output.append("level-name=");
        output.append(WORLD_NAME);
        output.push('\n');
        proof {
            assert(kept.push(world_line()).drop_last() =~= kept);
            assert(output@ =~= before + world_line().push('\n'));
        }
    }
    output
}

/// The port on which the server listens, from its properties if they could be
/// read.
pub fn server_port(content: Option<&str>) -> (port: u16)
    ensures
        port == match content {
            Some(text) => port_of(text@),
            None => DEFAULT_PORT,
        },
{
    let properties: &str = match content {
        Some(text) => text,
        None => {
            return DEFAULT_PORT;
        },
    };
    let split: Vec<Vec<char>> = lines_of(properties);
    let ghost given = lines(properties@);
    let mut i: usize = 0;
    assert(given.skip(0) =~= given);
    while i < split.len()
        invariant
            views(split@) == given,
            given == lines(properties@),
            content == Some(properties),
            i <= split@.len(),
            first_port(given) == first_port(given.skip(i as int)),
        decreases split@.len() - i,
    {
        let line: &Vec<char> = &split[i];
        assert(line@ == given[i as int]);
        assert(given.skip(i as int)[0] == line@);
        assert(given.skip(i as int).skip(1) =~= given.skip(i + 1));
        if starts_with(line.as_slice(), "server-port=") {
            proof {
                reveal_strlit("server-port=");
            }
            let (from, to): (usize, usize) = trimmed(line.as_slice(), 12);
            if let Some(port) = read_u16(line.as_slice(), from, to) {
                return port;
            }
        }
        i += 1;
    }
    DEFAULT_PORT
}

proof fn lemma_trim_last_blank(text: Seq<char>)
    requires
        text.len() > 0,
        is_blank(text.last()),
    ensures
        trim(text.drop_last()) == trim(text),
    decreases text.len(),
{
    let front = text.drop_last();
    if is_blank(text[0]) {
        if text.len() > 1 {
            assert(text.skip(1).drop_last() =~= front.skip(1));
            lemma_trim_last_blank(text.skip(1));
        } else {
            assert(front =~= Seq::<char>::empty());
            assert(text.skip(1) =~= Seq::<char>::empty());
        }
    }
}

/// Taking a carriage return off a line leaves the port that it gives.
proof fn lemma_port_without_return(line: Seq<char>)
    ensures
        port_in_line(without_return(line)) == port_in_line(line),
{
    reveal_strlit("server-port=");
    let key = "server-port="@;
    let short = without_return(line);
    if short != line {
        assert(key.last() == '=');
        if key.is_prefix_of(line) {
            assert(line.subrange(0, key.len() as int).last() == '=');
            assert(line.len() > key.len());
            assert(key.is_prefix_of(short)) by {
                assert(short.subrange(0, key.len() as int) =~= line.subrange(0, key.len() as int));
            }
            let tail = line.skip(key.len() as int);
            assert(short.skip(key.len() as int) =~= tail.drop_last());
            lemma_trim_last_blank(tail);
        } else if key.is_prefix_of(short) {
            assert(line.subrange(0, key.len() as int) =~= short.subrange(0, key.len() as int));
        }
    }
}

/// A line that names a world gives no port.
proof fn lemma_world_gives_no_port(line: Seq<char>)
    requires
        names_world(line),
    ensures
        port_in_line(line) is None,
{
    reveal_strlit("level-name=");
    reveal_strlit("server-port=");
    assert(line.subrange(0, "level-name="@.len() as int)[0] == 'l');
    if "server-port="@.is_prefix_of(line) {
        assert(line.subrange(0, "server-port="@.len() as int)[0] == 's');
    }
}

proof fn lemma_world_line()
    ensures
        names_world(world_line()),
        without_return(world_line()) == world_line(),
        !world_line().contains('\n'),
{
    reveal_strlit("level-name=");
    reveal_strlit("Werewolf");
    assert(world_line().subrange(0, "level-name="@.len() as int) =~= "level-name="@);
    assert(world_line().last() == 'f');
}

proof fn lemma_first_port_pointwise(given: Seq<Seq<char>>, other: Seq<Seq<char>>)
    requires
        given.len() <= other.len(),
        forall|i: int|
            0 <= i < given.len() ==> port_in_line(#[trigger] given[i]) == port_in_line(other[i]),
        forall|i: int| given.len() <= i < other.len() ==> port_in_line(#[trigger] other[i]) is None,
    ensures
        first_port(given) == first_port(other),
    decreases other.len(),
{
    if other.len() > 0 {
        if given.len() > 0 {
            assert(port_in_line(given[0]) == port_in_line(other[0]));
            assert forall|i: int| 0 <= i < given.skip(1).len() implies port_in_line(
                #[trigger] given.skip(1)[i],
            ) == port_in_line(other.skip(1)[i]) by {
                assert(given.skip(1)[i] == given[i + 1]);
            }
            assert forall|i: int| given.skip(1).len() <= i < other.skip(1).len() implies port_in_line(
                #[trigger] other.skip(1)[i],
            ) is None by {
                assert(other.skip(1)[i] == other[i + 1]);
            }
            lemma_first_port_pointwise(given.skip(1), other.skip(1));
        } else {
            assert(port_in_line(other[0]) is None);
            assert forall|i: int| 0 <= i < other.skip(1).len() implies port_in_line(
                #[trigger] other.skip(1)[i],
            ) is None by {
                assert(other.skip(1)[i] == other[i + 1]);
            }
            lemma_first_port_pointwise(given, other.skip(1));
        }
    }
}

/// The lines of settled properties: the settled lines, each without the carriage
/// return that it may end in.
proof fn lemma_settled_lines(content: Seq<char>)
    ensures
        lines(settled_properties(content)) == settled_lines(lines(content)).map_values(
            |line: Seq<char>| without_return(line),
        ),
{
    let given = lines(content);
    let settled = settled_lines(given);
    lemma_lines_hold_no_line_feed(content);
    lemma_world_line();
    assert forall|i: int| 0 <= i < settled.len() implies !(#[trigger] settled[i]).contains('\n') by {
        if i < given.len() {
            assert(!given[i].contains('\n'));
        }
    }
    lemma_lines_of_unlines(settled, Seq::empty());
    assert(unlines(settled) + Seq::<char>::empty() =~= unlines(settled));
    assert(settled.map_values(|line: Seq<char>| without_return(line)) + lines(Seq::<char>::empty())
        =~= settled.map_values(|line: Seq<char>| without_return(line)));
}

/// Settled properties name the world, and no other world than [`WORLD_NAME`].
pub proof fn settled_properties_name_the_world(content: Seq<char>)
    ensures
        exists|i: int|
            0 <= i < lines(settled_properties(content)).len() && names_world(
                #[trigger] lines(settled_properties(content))[i],
            ),
        forall|i: int|
            0 <= i < lines(settled_properties(content)).len() && names_world(
                #[trigger] lines(settled_properties(content))[i],
            ) ==> lines(settled_properties(content))[i] == world_line(),
{
    let given = lines(content);
    let settled = settled_lines(given);
    let result = lines(settled_properties(content));
    lemma_settled_lines(content);
    lemma_world_line();
    if exists|i: int| 0 <= i < given.len() && names_world(#[trigger] given[i]) {
        let k = choose|i: int| 0 <= i < given.len() && names_world(#[trigger] given[i]);
        assert(result[k] == world_line());
    } else {
        assert(result[given.len() as int] == world_line());
    }
    assert forall|i: int| 0 <= i < result.len() && names_world(#[trigger] result[i]) implies result[i]
        == world_line() by {
        if !names_world(settled[i]) {
            let key = "level-name="@;
            assert(settled[i].subrange(0, key.len() as int) =~= result[i].subrange(
                0,
                key.len() as int,
            ));
        }
    }
}

/// Settling the world leaves the port as it was.
pub proof fn settled_properties_keep_the_port(content: Seq<char>)
    ensures
        port_of(settled_properties(content)) == port_of(content),
{
    let given = lines(content);
    let settled = settled_lines(given);
    let result = lines(settled_properties(content));
    lemma_settled_lines(content);
    lemma_world_line();
    lemma_world_gives_no_port(world_line());
    assert forall|i: int| 0 <= i < given.len() implies port_in_line(#[trigger] given[i])
        == port_in_line(result[i]) by {
        assert(result[i] == without_return(settled[i]));
        assert(settled[i] == settled_line(given[i]));
        if names_world(given[i]) {
            lemma_world_gives_no_port(given[i]);
        } else {
            lemma_port_without_return(given[i]);
        }
    }
    lemma_first_port_pointwise(given, result);
}

/// Settling properties again changes nothing, unless a line that stays as it is
/// ends in a carriage return of its own.
pub proof fn settled_properties_are_settled(content: Seq<char>)
    requires
        forall|i: int|
            0 <= i < lines(content).len() && !names_world(#[trigger] lines(content)[i])
                ==> without_return(lines(content)[i]) == lines(content)[i],
    ensures
        settled_properties(settled_properties(content)) == settled_properties(content),
{
    let given = lines(content);
    let settled = settled_lines(given);
    let result = lines(settled_properties(content));
    lemma_settled_lines(content);
    lemma_world_line();
    assert(result =~= settled) by {
        assert forall|i: int| 0 <= i < settled.len() implies result[i] == settled[i] by {
            if i < given.len() && !names_world(given[i]) {
                assert(settled[i] == given[i]);
            }
        }
    }
    settled_properties_name_the_world(content);
    assert(settled_lines(result) =~= result) by {
        assert forall|i: int| 0 <= i < result.len() implies settled_line(result[i]) == result[i] by {
            if names_world(result[i]) {
                assert(result[i] == world_line());
            }
        }
    }
}

/// Every line that does not begin with the literal text `level-name=` stays where it is
/// and as it is, but for a carriage return at its end. Every line that does begin so
/// becomes the line that names the world, and if there is none, that line is added at the
/// end; else no line is added. No line is lost.
pub proof fn other_settings_stay(content: Seq<char>)
    ensures
        ({
            let before = lines(content);
            let now = lines(settled_properties(content));
            let world = "level-name=Werewolf"@;
            let named = exists|i: int|
                0 <= i < before.len() && "level-name="@.is_prefix_of(#[trigger] before[i]);
            &&& forall|i: int|
                0 <= i < before.len() && !"level-name="@.is_prefix_of(#[trigger] before[i])
                    ==> now[i] == before[i] || now[i].push('\r') == before[i]
            &&& forall|i: int|
                0 <= i < before.len() && "level-name="@.is_prefix_of(#[trigger] before[i])
                    ==> now[i] == world
            &&& named ==> now.len() == before.len()
            &&& !named ==> now.len() == before.len() + 1 && now.last() == world
        }),
{
    let before = lines(content);
    let settled = settled_lines(before);
    let now = lines(settled_properties(content));
    lemma_settled_lines(content);
    lemma_world_line();
    assert(world_line() =~= "level-name=Werewolf"@) by {
        reveal_strlit("level-name=");
        reveal_strlit("Werewolf");
        reveal_strlit("level-name=Werewolf");
    }
    assert forall|i: int|
        0 <= i < before.len() && !"level-name="@.is_prefix_of(#[trigger] before[i]) implies now[i]
        == before[i] || now[i].push('\r') == before[i] by {
        assert(settled[i] == settled_line(before[i]));
        assert(now[i] == without_return(settled[i]));
        if now[i] != before[i] {
            assert(now[i].push('\r') =~= before[i]);
        }
    }
    assert forall|i: int|
        0 <= i < before.len() && "level-name="@.is_prefix_of(#[trigger] before[i]) implies now[i]
        == "level-name=Werewolf"@ by {
        assert(settled[i] == settled_line(before[i]));
        assert(now[i] == without_return(settled[i]));
    }
    if exists|i: int|
        0 <= i < before.len() && "level-name="@.is_prefix_of(#[trigger] before[i]) {
        let k = choose|i: int|
            0 <= i < before.len() && "level-name="@.is_prefix_of(#[trigger] before[i]);
        assert(names_world(before[k]));
    } else {
        assert forall|i: int| 0 <= i < before.len() implies !names_world(#[trigger] before[i]) by {
            assert(!"level-name="@.is_prefix_of(before[i]));
        }
    }
}

/// The lines of a text hold all of it but its line feeds and the carriage returns before
/// them: joined again, each with a line feed, they make a text without carriage returns
/// that ends in a line feed.
pub proof fn lines_hold_the_text(text: Seq<char>)
    requires
        !text.contains('\r'),
        text.len() > 0 ==> text.last() == '\n',
    ensures
        unlines(lines(text)) == text,
        forall|i: int| 0 <= i < lines(text).len() ==> !(#[trigger] lines(text)[i]).contains('\n'),
    decreases text.len(),
{
    lemma_lines_hold_no_line_feed(text);
    if text.len() > 0 {
        lemma_first_position(text, '\n');
        let end = first_position(text, '\n') as int;
        assert(text[text.len() - 1] == '\n');
        let head = text.take(end);
        let rest = text.skip(end + 1);
        assert forall|i: int| 0 <= i < head.len() implies head[i] != '\r' by {
            assert(text[i] != '\r');
        }
        if head.len() > 0 {
            assert(head.last() == head[head.len() - 1]);
        }
        assert(without_return(head) == head);
        assert forall|i: int| 0 <= i < rest.len() implies rest[i] != '\r' by {
            assert(text[end + 1 + i] != '\r');
        }
        lines_hold_the_text(rest);
        lemma_unlines_first(head, lines(rest));
        assert(text =~= head.push('\n') + rest);
    }
}

proof fn lemma_unlines_first(first: Seq<char>, rest: Seq<Seq<char>>)
    ensures
        unlines(seq![first] + rest) == first.push('\n') + unlines(rest),
    decreases rest.len(),
{
    let all = seq![first] + rest;
    if rest.len() == 0 {
        assert(all.drop_last() =~= Seq::empty());
        assert(unlines(Seq::<Seq<char>>::empty()) =~= Seq::empty());
        assert(unlines(all) =~= first.push('\n'));
        assert(first.push('\n') + unlines(rest) =~= first.push('\n'));
    } else {
        lemma_unlines_first(first, rest.drop_last());
        assert(all.drop_last() =~= seq![first] + rest.drop_last());
        assert(all.last() == rest.last());
        assert(unlines(all) =~= first.push('\n') + unlines(rest));
    }
}

/// A carriage return before a line feed belongs to the line feed, and a line feed at the
/// very end begins no further line.
pub proof fn line_feeds_part_lines(line: Seq<char>, rest: Seq<char>)
    requires
        !line.contains('\n'),
    ensures
        lines(line.push('\r').push('\n') + rest) == seq![line] + lines(rest),
        line.len() > 0 && line.last() != '\r' ==> lines(line.push('\n') + rest) == seq![line]
            + lines(rest),
        line.len() > 0 ==> lines(line) == seq![line],
        lines(seq!['\n'] + rest) == seq![Seq::<char>::empty()] + lines(rest),
        lines(Seq::empty()).len() == 0,
{
    let returned = line.push('\r');
    assert forall|i: int| 0 <= i < returned.len() implies returned[i] != '\n' by {
        if i < line.len() {
            assert(line.contains(line[i]));
        }
    }
    lemma_lines_of_line(returned, rest);
    assert(returned.drop_last() =~= line);
    lemma_lines_of_line(line, rest);
    assert(!Seq::<char>::empty().contains('\n'));
    lemma_lines_of_line(Seq::empty(), rest);
    assert(Seq::<char>::empty().push('\n') + rest =~= seq!['\n'] + rest);
    if line.len() > 0 {
        lemma_first_position(line, '\n');
        let found = first_position(line, '\n') as int;
        if found < line.len() {
            assert(line.contains(line[found]));
        }
    }
}

/// The port is the number behind the literal text `server-port=` in the first line that
/// begins so and gives one, and 19132 where there is no such line.
pub proof fn ports_stand_in_the_first_line_that_gives_one(content: Seq<char>)
    ensures
        ({
            let given = lines(content);
            let key = "server-port="@;
            &&& forall|i: int|
                0 <= i < given.len() && key.is_prefix_of(#[trigger] given[i]) && parse_u16(
                    trim(given[i].skip(12)),
                ) is Some && (forall|k: int|
                    0 <= k < i ==> !key.is_prefix_of(#[trigger] given[k]) || parse_u16(
                        trim(given[k].skip(12)),
                    ) is None) ==> port_of(content) == parse_u16(trim(given[i].skip(12)))->0
            &&& (forall|k: int|
                0 <= k < given.len() ==> !key.is_prefix_of(#[trigger] given[k]) || parse_u16(
                    trim(given[k].skip(12)),
                ) is None) ==> port_of(content) == 19132
        }),
{
    let given = lines(content);
    let key = "server-port="@;
    reveal_strlit("server-port=");
    assert(key.len() == 12);
    assert forall|i: int|
        0 <= i < given.len() && key.is_prefix_of(#[trigger] given[i]) && parse_u16(
            trim(given[i].skip(12)),
        ) is Some && (forall|k: int|
            0 <= k < i ==> !key.is_prefix_of(#[trigger] given[k]) || parse_u16(
                trim(given[k].skip(12)),
            ) is None) implies port_of(content) == parse_u16(trim(given[i].skip(12)))->0 by {
        assert forall|k: int| 0 <= k < i implies port_in_line(#[trigger] given[k]) is None by {
            assert(!key.is_prefix_of(given[k]) || parse_u16(trim(given[k].skip(12))) is None);
        }
        lemma_first_port_at(given, i);
    }
    if forall|k: int|
        0 <= k < given.len() ==> !key.is_prefix_of(#[trigger] given[k]) || parse_u16(
            trim(given[k].skip(12)),
        ) is None {
        assert forall|k: int| 0 <= k < given.len() implies port_in_line(
            #[trigger] given[k],
        ) is None by {
            assert(!key.is_prefix_of(given[k]) || parse_u16(trim(given[k].skip(12))) is None);
        }
        lemma_first_port_at(given, given.len() as int);
    }
}

proof fn lemma_first_port_at(given: Seq<Seq<char>>, i: int)
    requires
        0 <= i <= given.len(),
        forall|k: int| 0 <= k < i ==> port_in_line(#[trigger] given[k]) is None,
        i < given.len() ==> port_in_line(given[i]) is Some,
    ensures
        i < given.len() ==> first_port(given) == port_in_line(given[i]),
        i == given.len() ==> first_port(given) is None,
    decreases given.len(),
{
    if given.len() > 0 && i > 0 {
        assert(port_in_line(given[0]) is None);
        let rest = given.skip(1);
        assert forall|k: int| 0 <= k < i - 1 implies port_in_line(#[trigger] rest[k]) is None by {
            assert(port_in_line(given[k + 1]) is None);
        }
        lemma_first_port_at(rest, i - 1);
    }
}

/// Joined lines each end in one line feed, and hold nothing else between them.
pub proof fn lines_are_joined_by_line_feeds(given: Seq<Seq<char>>, line: Seq<char>)
    ensures
        unlines(Seq::empty()) == Seq::<char>::empty(),
        unlines(given.push(line)) == unlines(given) + line + seq!['\n'],
{
    assert(given.push(line).drop_last() =~= given);
    assert(unlines(given.push(line)) =~= unlines(given) + line + seq!['\n']);
}

/// Settled properties are lines, joined: each line of the properties as it is, unless it
/// begins with the literal text `level-name=`, and in the place of each that does, the line
/// `level-name=Werewolf`. If there is none such, that line comes last.
pub proof fn settled_properties_are_joined_lines(content: Seq<char>) -> (settled: Seq<Seq<char>>)
    ensures
        settled_properties(content) == unlines(settled),
        ({
            let before = lines(content);
            let world = "level-name=Werewolf"@;
            let named = exists|i: int|
                0 <= i < before.len() && "level-name="@.is_prefix_of(#[trigger] before[i]);
            &&& forall|i: int|
                0 <= i < before.len() ==> #[trigger] settled[i] == if "level-name="@.is_prefix_of(
                    before[i],
                ) {
                    world
                } else {
                    before[i]
                }
            &&& named ==> settled.len() == before.len()
            &&& !named ==> settled.len() == before.len() + 1 && settled.last() == world
        }),
{
    let before = lines(content);
    let settled = settled_lines(before);
    assert(world_line() =~= "level-name=Werewolf"@) by {
        reveal_strlit("level-name=");
        reveal_strlit("Werewolf");
        reveal_strlit("level-name=Werewolf");
    }
    assert forall|i: int| 0 <= i < before.len() implies #[trigger] settled[i] == (
    if "level-name="@.is_prefix_of(before[i]) {
        "level-name=Werewolf"@
    } else {
        before[i]
    }) by {
        assert(settled[i] == settled_line(before[i]));
    }
    if exists|i: int|
        0 <= i < before.len() && "level-name="@.is_prefix_of(#[trigger] before[i]) {
        let k = choose|i: int|
            0 <= i < before.len() && "level-name="@.is_prefix_of(#[trigger] before[i]);
        assert(names_world(before[k]));
    } else {
        assert forall|i: int| 0 <= i < before.len() implies !names_world(#[trigger] before[i]) by {
            assert(!"level-name="@.is_prefix_of(before[i]));
        }
    }
    settled
}

} // verus!
