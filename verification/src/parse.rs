//! The wire parser: from one protocol line to a chat message.
//!
//! Two shapes of line carry a chat message. The untagged shape is
//! `:<author>!<rest> PRIVMSG #<channel> :<text>`. The tagged shape is
//! `<tags> :<author-info> :<text>`, where `<tags>` is a list of `key=value`
//! pairs separated by `;`. A line of neither shape is no chat message.

use vstd::prelude::*;
use crate::chat::{ChatMessage, ChatMessageView};
use crate::text::{
    chars_of, collect_string, contains, find_within, first_line, lemma_split_once_at_char,
    lemma_split_once_at_pair, lemma_split_once_without_char, same_chars, split, split_once,
};

verus! {

/// The message that an untagged line carries.
///
/// The line starts with `:`. The author stands between that `:` and the first
/// `!` of the line; the text is all that follows the next `:`, so it may
/// itself hold `:`. A line without a leading `:`, without `!` or without a
/// second `:` carries no message.
pub open spec fn plain_message(line: Seq<char>) -> Option<ChatMessageView> {
    if line.len() > 0 && line[0] == ':' {
        match (split_once(line, "!"@), split_once(line.skip(1), ":"@)) {
            (Some((head, _)), Some((_, text))) => Some(
                ChatMessageView { author: head.skip(1), color: None, message: text },
            ),
            _ => None,
        }
    } else {
        None
    }
}

/// `tags` with the pair that `piece` holds: a piece `key=value` sets `key` to
/// `value`, where the key ends at the first `=`; a piece without `=` holds no
/// pair and changes nothing.
pub open spec fn with_pair(tags: Map<Seq<char>, Seq<char>>, piece: Seq<char>) -> Map<
    Seq<char>,
    Seq<char>,
> {
    match split_once(piece, "="@) {
        Some((key, value)) => tags.insert(key, value),
        None => tags,
    }
}

/// The `key=value` pairs among `pieces`, as a mapping. A piece without `=` is
/// passed over; of two pieces with one key the later one stays.
pub open spec fn collect_pairs(pieces: Seq<Seq<char>>) -> Map<Seq<char>, Seq<char>>
    decreases pieces.len(),
{
    if pieces.len() == 0 {
        Map::empty()
    } else {
        with_pair(collect_pairs(pieces.drop_last()), pieces.last())
    }
}

/// The mapping that a tag list `key=value;key=value;...` stands for.
pub open spec fn tag_map(tags: Seq<char>) -> Map<Seq<char>, Seq<char>> {
    collect_pairs(split(tags, ';'))
}

/// What a tagged line with the tags `tags` and the text `text` yields: the
/// value of `display-name` as author, the value of `color` as colour where
/// there is one; nothing without `display-name`.
pub open spec fn tagged_parts(tags: Map<Seq<char>, Seq<char>>, text: Seq<char>) -> Option<
    ChatMessageView,
> {
    if tags.contains_key("display-name"@) {
        Some(
            ChatMessageView {
                author: tags["display-name"@],
                color: if tags.contains_key("color"@) {
                    Some(tags["color"@])
                } else {
                    None
                },
                message: text,
            },
        )
    } else {
        None
    }
}

/// The message that a tagged line carries.
///
/// The first ` :` ends the tags, the next ` :` ends the author information,
/// and the text is all that follows. The author is the value of the tag
/// `display-name`, the colour that of the tag `color`, where it is there. A
/// line without two ` :` or without the tag `display-name` carries no message.
pub open spec fn tagged_message(line: Seq<char>) -> Option<ChatMessageView> {
    match split_once(line, " :"@) {
        Some((tags, tail)) => match split_once(tail, " :"@) {
            Some((_, text)) => tagged_parts(tag_map(tags), text),
            None => None,
        },
        None => None,
    }
}

/// The mapping that a list of pairs stands for: a later pair replaces an
/// earlier one with the same key.
spec fn entries_map(entries: Seq<(String, String)>) -> Map<Seq<char>, Seq<char>>
    decreases entries.len(),
{
    if entries.len() == 0 {
        Map::empty()
    } else {
        entries_map(entries.drop_last()).insert(entries.last().0@, entries.last().1@)
    }
}

/// The tags of one line, in the order in which the line gives them.
#[derive(Debug, Clone)]
pub struct Tags {
    entries: Vec<(String, String)>,
}

impl View for Tags {
    type V = Map<Seq<char>, Seq<char>>;

    closed spec fn view(&self) -> Map<Seq<char>, Seq<char>> {
        entries_map(self.entries@)
    }
}

/// The last pair with the key `key` gives the value that the mapping holds
/// for it.
proof fn lemma_entries_found(entries: Seq<(String, String)>, key: Seq<char>, i: int)
    requires
        0 <= i < entries.len(),
        entries[i].0@ == key,
        forall|j: int| i < j < entries.len() ==> (#[trigger] entries[j]).0@ != key,
    ensures
        entries_map(entries).contains_key(key),
        entries_map(entries)[key] == entries[i].1@,
    decreases entries.len(),
{
    if i < entries.len() - 1 {
        assert(entries.last() == entries[entries.len() - 1]);
        lemma_entries_found(entries.drop_last(), key, i);
    }
}

/// A key that no pair has is not in the mapping.
proof fn lemma_entries_absent(entries: Seq<(String, String)>, key: Seq<char>)
    requires
        forall|j: int| 0 <= j < entries.len() ==> (#[trigger] entries[j]).0@ != key,
    ensures
        !entries_map(entries).contains_key(key),
    decreases entries.len(),
{
    if entries.len() > 0 {
        assert(entries.last() == entries[entries.len() - 1]);
        lemma_entries_absent(entries.drop_last(), key);
    }
}

impl Tags {
    /// The value of the tag `key`, where the line gave one.
    pub fn get(&self, key: &str) -> (r: Option<&String>)
        ensures
            r matches Some(value) ==> self@.contains_key(key@) && self@[key@] == value@,
            r is None ==> !self@.contains_key(key@),
    {
        let wanted = chars_of(key);
        let mut i: usize = self.entries.len();
        while i > 0
            invariant
                i <= self.entries.len(),
                wanted@ == key@,
                forall|j: int| i <= j < self.entries.len() ==> (#[trigger] self.entries[j]).0@ != key@,
            decreases i,
        {
            i -= 1;
            let found = chars_of(self.entries[i].0.as_str());
            if same_chars(&found, &wanted) {
                proof {
                    lemma_entries_found(self.entries@, key@, i as int);
                }
                return Some(&self.entries[i].1);
            }
        }
        proof {
            lemma_entries_absent(self.entries@, key@);
        }
        None
    }
}

/// `split` of a sequence that grows by one character.
proof fn lemma_split_push(s: Seq<char>, c: char, sep: char)
    ensures
        split(s, sep).len() > 0,
        c == sep ==> split(s.push(c), sep) == split(s, sep).push(Seq::<char>::empty()),
        c != sep ==> split(s.push(c), sep) == split(s, sep).drop_last().push(
            split(s, sep).last().push(c),
        ),
    decreases s.len(),
{
    if s.len() > 0 {
        lemma_split_push(s.drop_last(), s.last(), sep);
    }
    assert(s.push(c).drop_last() =~= s);
}

/// Adds the pair that the piece `s[from..to]` holds, where it holds one.
fn push_pair(entries: &mut Vec<(String, String)>, s: &Vec<char>, from: usize, to: usize)
    requires
        from <= to <= s.len(),
    ensures
        entries_map(final(entries)@) == with_pair(
            entries_map(old(entries)@),
            s@.subrange(from as int, to as int),
        ),
{
    let equals = chars_of("=");
    proof {
        reveal_strlit("=");
    }
    match find_within(s, from, to, &equals) {
        Some(at) => {
            let key = collect_string(s, from, at);
            let value = collect_string(s, at + 1, to);
            let ghost piece = s@.subrange(from as int, to as int);
            let ghost before = entries@;
            assert(piece.subrange(0, at - from) =~= key@);
            assert(piece.subrange(at - from + 1, piece.len() as int) =~= value@);
            entries.push((key, value));
            assert(entries@.drop_last() =~= before);
        },
        None => {},
    }
}

/// The tags in the window `s[from..to]`.
fn tags_within(s: &Vec<char>, from: usize, to: usize) -> (r: Tags)
    requires
        from <= to <= s.len(),
    ensures
        r@ == tag_map(s@.subrange(from as int, to as int)),
{
    let ghost w = s@.subrange(from as int, to as int);
    let ghost mut done: Seq<Seq<char>> = Seq::empty();
    let mut entries: Vec<(String, String)> = Vec::new();
    let mut start: usize = from;
    let mut i: usize = from;
    proof {
        assert(w.take(0).len() == 0);
        assert(w.subrange(0, 0) =~= Seq::<char>::empty());
        assert(done.push(w.subrange(0, 0)) =~= seq![Seq::<char>::empty()]);
    }
    while i < to
        invariant
            from <= start <= i <= to <= s.len(),
            w == s@.subrange(from as int, to as int),
            split(w.take(i - from), ';') == done.push(w.subrange(start - from, i - from)),
            entries_map(entries@) == collect_pairs(done),
        decreases to - i,
    {
        proof {
            lemma_split_push(w.take(i - from), w[i - from], ';');
            assert(w.take(i + 1 - from) =~= w.take(i - from).push(w[i - from]));
            assert(done.push(w.subrange(start - from, i - from)).drop_last() =~= done);
        }
        if s[i] == ';' {
            push_pair(&mut entries, s, start, i);
            proof {
                let piece = w.subrange(start - from, i - from);
                assert(piece =~= s@.subrange(start as int, i as int));
                assert(done.push(piece).drop_last() =~= done);
                done = done.push(piece);
                assert(w.subrange(i + 1 - from, i + 1 - from) =~= Seq::<char>::empty());
            }
            start = i + 1;
        } else {
            proof {
                assert(w.subrange(start - from, i - from).push(w[i - from]) =~= w.subrange(
                    start - from,
                    i + 1 - from,
                ));
            }
        }
        i += 1;
    }
    push_pair(&mut entries, s, start, to);
    proof {
        let piece = w.subrange(start - from, to - from);
        assert(piece =~= s@.subrange(start as int, to as int));
        assert(w.take(to - from) =~= w);
        assert(done.push(piece).drop_last() =~= done);
    }
    Tags { entries }
}

/// Reads a tag list `key=value;key=value;...`.
///
/// A piece without `=` is passed over, a value may be empty, and of two pairs
/// with one key the later one stays.
pub fn parse_tags(tags: &str) -> (r: Tags)
    ensures
        r@ == tag_map(tags@),
{
    let s = chars_of(tags);
    assert(s@.subrange(0, s.len() as int) =~= s@);
    tags_within(&s, 0, s.len())
}

/// Where the first line of `s` ends: at its first terminator, or at the end
/// of `s` where it has none.
fn line_end(s: &Vec<char>) -> (n: usize)
    ensures
        n <= s.len(),
        s@.subrange(0, n as int) == first_line(s@),
{
    let terminator = chars_of("\r\n");
    assert(s@.subrange(0, s.len() as int) =~= s@);
    match find_within(s, 0, s.len(), &terminator) {
        Some(at) => at,
        None => s.len(),
    }
}

/// Reads an untagged line: the text up to its terminator, or all of it where
/// it has none. See [`plain_message`] for what the line yields.
pub fn format_user_message(line: &str) -> (r: Option<ChatMessage>)
    ensures
        r matches Some(m) ==> plain_message(first_line(line@)) == Some(m@),
        r is None ==> plain_message(first_line(line@)) is None,
{
    let s = chars_of(line);
    let n = line_end(&s);
    let bang = chars_of("!");
    let colon = chars_of(":");
    proof {
        reveal_strlit("!");
        reveal_strlit(":");
    }
    if n == 0 || s[0] != ':' {
        return None;
    }
    let first_bang = match find_within(&s, 0, n, &bang) {
        Some(at) => at,
        None => { return None; },
    };
    proof {
        assert(first_line(line@).skip(1) =~= s@.subrange(1, n as int));
    }
    let second_colon = match find_within(&s, 1, n, &colon) {
        Some(at) => at,
        None => { return None; },
    };
    proof {
        let w = first_line(line@);
        let rest = s@.subrange(1, n as int);
        assert(s@.subrange(first_bang as int, first_bang + 1)[0] == '!');
        assert(first_bang >= 1);
        assert(w.subrange(0, first_bang as int).skip(1) =~= s@.subrange(1, first_bang as int));
        assert(rest.subrange(second_colon - 1 + 1, rest.len() as int) =~= s@.subrange(
            second_colon + 1,
            n as int,
        ));
    }
    let author = collect_string(&s, 1, first_bang);
    let message = collect_string(&s, second_colon + 1, n);
    Some(ChatMessage { author, color: None, message })
}

/// Reads a tagged line: the text up to its terminator, or all of it where it
/// has none. See [`tagged_message`] for what the line yields.
pub fn format_user_message_with_tags(line: &str) -> (r: Option<ChatMessage>)
    ensures
        r matches Some(m) ==> tagged_message(first_line(line@)) == Some(m@),
        r is None ==> tagged_message(first_line(line@)) is None,
{
    let s = chars_of(line);
    let n = line_end(&s);
    let mark = chars_of(" :");
    proof {
        reveal_strlit(" :");
    }
    let tags_end = match find_within(&s, 0, n, &mark) {
        Some(at) => at,
        None => { return None; },
    };
    proof {
        let w = first_line(line@);
        assert(w.subrange(tags_end + 2, n as int) =~= s@.subrange(tags_end + 2, n as int));
        assert(w.subrange(0, tags_end as int) =~= s@.subrange(0, tags_end as int));
    }
    let info_end = match find_within(&s, tags_end + 2, n, &mark) {
        Some(at) => at,
        None => { return None; },
    };
    proof {
        let tail = s@.subrange(tags_end + 2, n as int);
        assert(tail.subrange(info_end - (tags_end + 2) + 2, tail.len() as int) =~= s@.subrange(
            info_end + 2,
            n as int,
        ));
    }
    let tags = tags_within(&s, 0, tags_end);
    let author = match tags.get("display-name") {
        Some(name) => name.clone(),
        None => { return None; },
    };
    let color = match tags.get("color") {
        Some(value) => Some(value.clone()),
        None => None,
    };
    let message = collect_string(&s, info_end + 2, n);
    Some(ChatMessage { author, color, message })
}

/// A line of the untagged shape yields its parts: the author between the
/// leading `:` and the `!`, and the text after the second `:`, whatever the
/// text holds.
pub proof fn lemma_plain_shape(author: Seq<char>, rest: Seq<char>, text: Seq<char>)
    requires
        !author.contains('!'),
        !author.contains(':'),
        !rest.contains(':'),
    ensures
        plain_message(":"@ + author + "!"@ + rest + ":"@ + text) == Some(
            ChatMessageView { author, color: None, message: text },
        ),
{
    reveal_strlit("!");
    reveal_strlit(":");
    assert(":"@ =~= seq![':']);
    assert("!"@ =~= seq!['!']);
    let line = ":"@ + author + "!"@ + rest + ":"@ + text;
    let head = seq![':'] + author;
    if head.contains('!') {
        let i = choose|i: int| 0 <= i < head.len() && head[i] == '!';
        assert(author[i - 1] == '!');
    }
    assert(line =~= head + seq!['!'] + (rest + seq![':'] + text));
    lemma_split_once_at_char(head, '!', rest + seq![':'] + text);
    assert(head.skip(1) =~= author);
    let middle = author + seq!['!'] + rest;
    if middle.contains(':') {
        let i = choose|i: int| 0 <= i < middle.len() && middle[i] == ':';
        if i < author.len() {
            assert(author[i] == ':');
        } else {
            assert(rest[i - author.len() - 1] == ':');
        }
    }
    assert(line.skip(1) =~= middle + seq![':'] + text);
    lemma_split_once_at_char(middle, ':', text);
}

/// A line without `!` is no chat message of the untagged shape.
pub proof fn lemma_plain_needs_bang(line: Seq<char>)
    requires
        !line.contains('!'),
    ensures
        plain_message(line) is None,
{
    reveal_strlit("!");
    assert("!"@ =~= seq!['!']);
    lemma_split_once_without_char(line, '!');
}

/// A line of the tagged shape yields the value of `display-name` as author,
/// the value of `color` as colour where the tags hold one, and as text all
/// that follows the second ` :`, whatever it holds.
pub proof fn lemma_tagged_shape(tags: Seq<char>, info: Seq<char>, text: Seq<char>)
    requires
        !contains(tags, " :"@),
        !contains(info, " :"@),
    ensures
        tagged_message(tags + " :"@ + info + " :"@ + text) == tagged_parts(tag_map(tags), text),
{
    reveal_strlit(" :");
    assert(" :"@ =~= seq![' ', ':']);
    let line = tags + " :"@ + info + " :"@ + text;
    let tail = info + " :"@ + text;
    assert(line =~= tags + " :"@ + tail);
    lemma_split_once_at_pair(tags, ' ', ':', tail);
    lemma_split_once_at_pair(info, ' ', ':', text);
}

/// A tagged line whose tags lack `display-name` is no chat message, whatever
/// other tags it has.
pub proof fn lemma_tagged_needs_display_name(line: Seq<char>)
    requires
        split_once(line, " :"@) matches Some((tags, _)) ==> !tag_map(tags).contains_key(
            "display-name"@,
        ),
    ensures
        tagged_message(line) is None,
{
}

/// A text without the separator is one piece.
pub proof fn lemma_split_without_sep(s: Seq<char>, sep: char)
    requires
        !s.contains(sep),
    ensures
        split(s, sep) == seq![s],
    decreases s.len(),
{
    if s.len() > 0 {
        let init = s.drop_last();
        if init.contains(sep) {
            let i = choose|i: int| 0 <= i < init.len() && init[i] == sep;
            assert(s[i] == sep);
        }
        assert(s[s.len() - 1] != sep);
        lemma_split_without_sep(init, sep);
        assert(seq![init].drop_last().push(seq![init].last().push(s.last())) =~= seq![s]) by {
            assert(init.push(s.last()) =~= s);
        }
    } else {
        assert(s =~= Seq::<char>::empty());
    }
}

/// The pieces of `a + sep + b` are the pieces of `a` and then those of `b`.
pub proof fn lemma_split_concat(a: Seq<char>, b: Seq<char>, sep: char)
    ensures
        split(a + seq![sep] + b, sep) == split(a, sep) + split(b, sep),
    decreases b.len(),
{
    if b.len() == 0 {
        lemma_split_push(a, sep, sep);
        assert(a + seq![sep] + b =~= a.push(sep));
        assert(split(a, sep).push(Seq::<char>::empty()) =~= split(a, sep) + split(b, sep));
    } else {
        let init = b.drop_last();
        let c = b.last();
        let whole = a + seq![sep] + init;
        lemma_split_concat(a, init, sep);
        lemma_split_push(whole, c, sep);
        lemma_split_push(init, c, sep);
        assert(init.push(c) =~= b);
        assert(a + seq![sep] + b =~= whole.push(c));
        let pa = split(a, sep);
        let pi = split(init, sep);
        if c == sep {
            assert((pa + pi).push(Seq::<char>::empty()) =~= pa + pi.push(Seq::<char>::empty()));
        } else {
            assert((pa + pi).last() == pi.last());
            assert((pa + pi).drop_last() =~= pa + pi.drop_last());
            assert((pa + pi.drop_last()).push(pi.last().push(c)) =~= pa + pi.drop_last().push(
                pi.last().push(c),
            ));
        }
    }
}

/// The pairs among two runs of pieces: those of the second run replace those
/// of the first with the same key.
pub proof fn lemma_collect_pairs_concat(x: Seq<Seq<char>>, y: Seq<Seq<char>>)
    ensures
        collect_pairs(x + y) == collect_pairs(x).union_prefer_right(collect_pairs(y)),
    decreases y.len(),
{
    if y.len() == 0 {
        assert(x + y =~= x);
        assert(collect_pairs(x).union_prefer_right(collect_pairs(y)) =~= collect_pairs(x));
    } else {
        lemma_collect_pairs_concat(x, y.drop_last());
        assert((x + y).drop_last() =~= x + y.drop_last());
        assert((x + y).last() == y.last());
        let earlier = collect_pairs(x).union_prefer_right(collect_pairs(y.drop_last()));
        match split_once(y.last(), "="@) {
            Some((key, value)) => {
                assert(earlier.insert(key, value) =~= collect_pairs(x).union_prefer_right(
                    collect_pairs(y.drop_last()).insert(key, value),
                ));
            },
            None => {},
        }
    }
}

/// The tags of `a;b` are the tags of `a`, replaced by those of `b` where both
/// have a key.
pub proof fn lemma_tag_map_of_list(a: Seq<char>, b: Seq<char>)
    ensures
        tag_map(a + seq![';'] + b) == tag_map(a).union_prefer_right(tag_map(b)),
{
    lemma_split_concat(a, b, ';');
    lemma_collect_pairs_concat(split(a, ';'), split(b, ';'));
}

/// One pair `key=value` stands for the mapping from `key` to `value`. The
/// value may be empty and may itself hold `=`.
pub proof fn lemma_tag_map_of_pair(key: Seq<char>, value: Seq<char>)
    requires
        !key.contains(';'),
        !key.contains('='),
        !value.contains(';'),
    ensures
        tag_map(key + seq!['='] + value) == Map::<Seq<char>, Seq<char>>::empty().insert(
            key,
            value,
        ),
{
    reveal_strlit("=");
    assert("="@ =~= seq!['=']);
    let piece = key + seq!['='] + value;
    if piece.contains(';') {
        let i = choose|i: int| 0 <= i < piece.len() && piece[i] == ';';
        if i < key.len() {
            assert(key[i] == ';');
        } else {
            assert(value[i - key.len() - 1] == ';');
        }
    }
    lemma_split_without_sep(piece, ';');
    lemma_split_once_at_char(key, '=', value);
    assert(seq![piece].drop_last() =~= Seq::<Seq<char>>::empty());
    assert(seq![piece].last() == piece);
    assert(collect_pairs(Seq::<Seq<char>>::empty()) == Map::<Seq<char>, Seq<char>>::empty());
}

/// A piece without `=` stands for no pair.
pub proof fn lemma_tag_map_of_other(piece: Seq<char>)
    requires
        !piece.contains(';'),
        !piece.contains('='),
    ensures
        tag_map(piece) == Map::<Seq<char>, Seq<char>>::empty(),
{
    reveal_strlit("=");
    assert("="@ =~= seq!['=']);
    lemma_split_without_sep(piece, ';');
    lemma_split_once_without_char(piece, '=');
    assert(seq![piece].drop_last() =~= Seq::<Seq<char>>::empty());
    assert(seq![piece].last() == piece);
    assert(collect_pairs(Seq::<Seq<char>>::empty()) == Map::<Seq<char>, Seq<char>>::empty());
}

} // verus!
