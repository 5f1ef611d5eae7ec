//! The directory of peers: nodes register under an id and learn of the
//! nodes that registered before them. The first to register under an id
//! keeps it.

use vstd::prelude::*;
use vstd::string::*;

verus! {

/// Whether `c` is white space: the characters that trimming removes.
pub open spec fn is_whitespace(c: char) -> bool {
    let n = c as u32;
    ||| 0x09 <= n <= 0x0D
    ||| n == 0x20
    ||| n == 0x85
    ||| n == 0xA0
    ||| n == 0x1680
    ||| 0x2000 <= n <= 0x200A
    ||| n == 0x2028
    ||| n == 0x2029
    ||| n == 0x202F
    ||| n == 0x205F
    ||| n == 0x3000
}

/// The number of white-space characters that `s` starts with.
pub open spec fn leading_whitespace(s: Seq<char>) -> nat
    decreases s.len(),
{
    if s.len() > 0 && is_whitespace(s.first()) {
        1 + leading_whitespace(s.drop_first())
    } else {
        0
    }
}

/// The number of white-space characters that `s` ends with.
pub open spec fn trailing_whitespace(s: Seq<char>) -> nat
    decreases s.len(),
{
    if s.len() > 0 && is_whitespace(s.last()) {
        1 + trailing_whitespace(s.drop_last())
    } else {
        0
    }
}

/// `s` without the white space around it.
pub open spec fn trimmed(s: Seq<char>) -> Seq<char> {
    let start = leading_whitespace(s) as int;
    let rest = s.skip(start);
    rest.take(rest.len() - trailing_whitespace(rest))
}

/// The number of commas in `s`.
pub open spec fn comma_count(s: Seq<char>) -> nat
    decreases s.len(),
{
    if s.len() == 0 {
        0
    } else {
        comma_count(s.drop_last()) + if s.last() == ',' {
            1nat
        } else {
            0nat
        }
    }
}

/// The index of the first comma of `s`, or the length of `s` where it has none.
pub open spec fn first_comma(s: Seq<char>) -> int
    decreases s.len(),
{
    if s.len() == 0 || s.first() == ',' {
        0
    } else {
        1 + first_comma(s.drop_first())
    }
}

/// The id and the address that a registration message names: the text
/// before and behind its one comma, once the white space around the
/// message is removed. A message with no comma or with several names none.
pub open spec fn parse_registration(message: Seq<char>) -> Option<(Seq<char>, Seq<char>)> {
    let text = trimmed(message);
    if comma_count(text) == 1 {
        let at = first_comma(text);
        Some((text.take(at), text.skip(at + 1)))
    } else {
        None
    }
}

/// A registered node.
#[derive(Debug, Clone)]
pub struct NodeRecord {
    pub id: String,
    pub addr: String,
}

/// The ids and addresses of a sequence of records.
pub open spec fn record_views(records: Seq<NodeRecord>) -> Seq<(Seq<char>, Seq<char>)> {
    records.map_values(|r: NodeRecord| (r.id@, r.addr@))
}

/// Whether a node is registered under `id`.
pub open spec fn is_registered(nodes: Seq<(Seq<char>, Seq<char>)>, id: Seq<char>) -> bool {
    exists|i: int| 0 <= i < nodes.len() && (#[trigger] nodes[i]).0 == id
}

/// The directory after a node asked to register: a node whose id is taken
/// changes nothing, any other is added behind the rest.
pub open spec fn with_registered(
    nodes: Seq<(Seq<char>, Seq<char>)>,
    id: Seq<char>,
    addr: Seq<char>,
) -> Seq<(Seq<char>, Seq<char>)> {
    if is_registered(nodes, id) {
        nodes
    } else {
        nodes.push((id, addr))
    }
}

/// The listing of a directory: one line `id,addr` per node, in the order
/// of registration, with a line feed between lines.
pub open spec fn listing(nodes: Seq<(Seq<char>, Seq<char>)>) -> Seq<char>
    decreases nodes.len(),
{
    if nodes.len() == 0 {
        Seq::empty()
    } else if nodes.len() == 1 {
        nodes[0].0 + seq![','] + nodes[0].1
    } else {
        listing(nodes.drop_last()) + seq!['\n'] + nodes.last().0 + seq![','] + nodes.last().1
    }
}

/// The answer to a message that names no id and address.
pub open spec fn invalid_registration() -> Seq<char> {
    "Invalid registration message"@
}

/// The directory of peers.
#[derive(Debug)]
pub struct BootstrapNode {
    nodes: Vec<NodeRecord>,
}

impl View for BootstrapNode {
    type V = Seq<(Seq<char>, Seq<char>)>;

    closed spec fn view(&self) -> Seq<(Seq<char>, Seq<char>)> {
        record_views(self.nodes@)
    }
}

/// Whether `c` is white space.
fn char_is_whitespace(c: char) -> (white: bool)
    ensures
        white == is_whitespace(c),
{
    let n: u32 = c as u32;
    (0x09 <= n && n <= 0x0D) || n == 0x20 || n == 0x85 || n == 0xA0 || n == 0x1680 || (0x2000 <= n
        && n <= 0x200A) || n == 0x2028 || n == 0x2029 || n == 0x202F || n == 0x205F || n == 0x3000
}

/// The leading white space of a text is what precedes its first
/// character that is no white space.
proof fn lemma_leading_whitespace(s: Seq<char>, n: int)
    requires
        0 <= n <= s.len(),
        forall|i: int| 0 <= i < n ==> is_whitespace(#[trigger] s[i]),
        n < s.len() ==> !is_whitespace(s[n]),
    ensures
        leading_whitespace(s) == n,
    decreases n,
{
    if n > 0 {
        assert(is_whitespace(s[0]));
        let rest = s.drop_first();
        assert forall|i: int| 0 <= i < n - 1 implies is_whitespace(#[trigger] rest[i]) by {
            assert(rest[i] == s[i + 1]);
        }
        lemma_leading_whitespace(rest, n - 1);
    }
}

/// The trailing white space of a text is what follows its last character
/// that is no white space.
proof fn lemma_trailing_whitespace(s: Seq<char>, n: int)
    requires
        0 <= n <= s.len(),
        forall|i: int| s.len() - n <= i < s.len() ==> is_whitespace(#[trigger] s[i]),
        n < s.len() ==> !is_whitespace(s[s.len() - n - 1]),
    ensures
        trailing_whitespace(s) == n,
    decreases n,
{
    if n > 0 {
        assert(is_whitespace(s[s.len() - 1]));
        let rest = s.drop_last();
        assert forall|i: int| rest.len() - (n - 1) <= i < rest.len() implies is_whitespace(
            #[trigger] rest[i],
        ) by {
            assert(rest[i] == s[i]);
        }
        lemma_trailing_whitespace(rest, n - 1);
    }
}

/// The first comma of a text stands where no comma precedes it.
proof fn lemma_first_comma(s: Seq<char>, at: int)
    requires
        0 <= at < s.len(),
        s[at] == ',',
        forall|i: int| 0 <= i < at ==> #[trigger] s[i] != ',',
    ensures
        first_comma(s) == at,
    decreases at,
{
    if at > 0 {
        assert(s[0] != ',');
        let rest = s.drop_first();
        assert forall|i: int| 0 <= i < at - 1 implies #[trigger] rest[i] != ',' by {
            assert(rest[i] == s[i + 1]);
        }
        lemma_first_comma(rest, at - 1);
    }
}

impl BootstrapNode {
    /// A directory with no node.
    pub fn new() -> (directory: BootstrapNode)
        ensures
            directory@ == Seq::<(Seq<char>, Seq<char>)>::empty(),
    {
        let directory = BootstrapNode { nodes: Vec::new() };
        assert(directory@ =~= Seq::<(Seq<char>, Seq<char>)>::empty());
        directory
    }

    /// The number of registered nodes.
    pub fn len(&self) -> (count: usize)
        ensures
            count == self@.len(),
    {
        self.nodes.len()
    }

    /// The registered nodes, in the order of registration.
    pub fn nodes(&self) -> (records: &Vec<NodeRecord>)
        ensures
            record_views(records@) == self@,
    {
        &self.nodes
    }

    /// Whether a node is registered under `id`.
    pub fn contains(&self, id: &str) -> (found: bool)
        ensures
            found == is_registered(self@, id@),
    {
        let needle = String::from_str(id);
        let mut i: usize = 0;
        while i < self.nodes.len()
            invariant
                i <= self.nodes.len(),
                needle@ == id@,
                forall|j: int| 0 <= j < i ==> (#[trigger] self@[j]).0 != id@,
            decreases self.nodes.len() - i,
        {
            if self.nodes[i].id == needle {
                assert(self@[i as int].0 == id@);
                return true;
            }
            i += 1;
        }
        false
    }

    /// Registers a node, unless its id is taken.
    pub fn register(&mut self, id: String, addr: String)
        ensures
            final(self)@ == with_registered(old(self)@, id@, addr@),
    {
        if !self.contains(id.as_str()) {
            proof {
                assert(record_views(self.nodes@.push(NodeRecord { id, addr })) =~= self@.push(
                    (id@, addr@),
                ));
            }
            self.nodes.push(NodeRecord { id, addr });
        }
    }

    /// The listing of the directory.
    pub fn response(&self) -> (text: String)
        ensures
            text@ == listing(self@),
    {
        let mut text = String::new();
        let mut i: usize = 0;
        assert(self@.take(0) =~= Seq::<(Seq<char>, Seq<char>)>::empty());
        proof {
            reveal_strlit("\n");
            reveal_strlit(",");
        }
        while i < self.nodes.len()
            invariant
                i <= self.nodes.len(),
                text@ == listing(self@.take(i as int)),
                "\n"@ == seq!['\n'],
                ","@ == seq![','],
            decreases self.nodes.len() - i,
        {
            let ghost before = text@;
            if i > 0 {
                text.append("\n");
            }
            text.append(self.nodes[i].id.as_str());
            text.append(",");
            text.append(self.nodes[i].addr.as_str());
            proof {
                let next = self@.take(i + 1);
                assert(next.drop_last() =~= self@.take(i as int));
                assert(next.last() == self@[i as int]);
                if i == 0 {
                    assert(before =~= Seq::<char>::empty());
                    assert(text@ =~= next[0].0 + seq![','] + next[0].1);
                } else {
                    assert(text@ =~= before + seq!['\n'] + next.last().0 + seq![',']
                        + next.last().1);
                }
            }
            i += 1;
        }
        assert(self@.take(i as int) =~= self@);
        text
    }

    /// Answers a registration message. A message of the form `id,addr`,
    /// with white space around it ignored, registers the node and is
    /// answered with the listing of the directory; any other message is
    /// answered with "Invalid registration message".
    pub fn handle_message(&mut self, message: &str) -> (answer: String)
        ensures
            match parse_registration(message@) {
                Some((id, addr)) => {
                    &&& final(self)@ == with_registered(old(self)@, id, addr)
                    &&& answer@ == listing(final(self)@)
                },
                None => final(self)@ == old(self)@ && answer@ == invalid_registration(),
            },
    {
        let len: usize = message.unicode_len();
        let mut start: usize = 0;
        while start < len && char_is_whitespace(message.get_char(start))
            invariant
                start <= len,
                len == message@.len(),
                forall|i: int| 0 <= i < start ==> is_whitespace(#[trigger] message@[i]),
            decreases len - start,
        {
            start += 1;
        }
        let mut end: usize = len;
        while end > start && char_is_whitespace(message.get_char(end - 1))
            invariant
                start <= end <= len,
                len == message@.len(),
                forall|i: int| end <= i < len ==> is_whitespace(#[trigger] message@[i]),
            decreases end,
        {
            end -= 1;
        }
        let ghost text = message@.subrange(start as int, end as int);
        proof {
            lemma_leading_whitespace(message@, start as int);
            let rest = message@.skip(start as int);
            assert forall|i: int| rest.len() - (len - end) <= i < rest.len() implies is_whitespace(
                #[trigger] rest[i],
            ) by {
                assert(rest[i] == message@[i + start]);
            }
            if len - end < rest.len() {
                assert(rest[rest.len() - (len - end) - 1] == message@[end - 1]);
            }
            lemma_trailing_whitespace(rest, len - end);
            assert(trimmed(message@) =~= text);
        }
        let mut commas: usize = 0;
        let mut first: usize = end;
        let mut i: usize = start;
        assert(text.take(0) =~= Seq::<char>::empty());
        while i < end
            invariant
                start <= i <= end <= len,
                len == message@.len(),
                text == message@.subrange(start as int, end as int),
                commas == comma_count(text.take(i - start)),
                commas <= i - start,
                commas == 0 ==> first == end,
                commas > 0 ==> start <= first < i && message@[first as int] == ',',
                forall|j: int|
                    start <= j < i && j < first ==> #[trigger] message@[j] != ',',
            decreases end - i,
        {
            proof {
                let next = text.take(i + 1 - start);
                assert(next.drop_last() =~= text.take(i - start));
                assert(next.last() == message@[i as int]);
            }
            if message.get_char(i) == ',' {
                if commas == 0 {
                    first = i;
                }
                commas += 1;
            }
            i += 1;
        }
        assert(text.take(end - start) =~= text);
        if commas == 1 {
            let id = String::from_str(message.substring_char(start, first));
            let addr = String::from_str(message.substring_char(first + 1, end));
            proof {
                let at = first - start;
                assert forall|j: int| 0 <= j < at implies #[trigger] text[j] != ',' by {
                    assert(text[j] == message@[j + start]);
                }
                lemma_first_comma(text, at);
                assert(id@ =~= text.take(at));
                assert(addr@ =~= text.skip(at + 1));
            }
            self.register(id, addr);
            self.response()
        } else {
            String::from_str("Invalid registration message")
        }
    }
}

/// The index of the first line feed of `s` at or behind `from`, or the
/// length of `s` where there is none.
pub open spec fn next_line_feed(s: Seq<char>, from: int) -> int
    decreases s.len() - from,
{
    if from >= s.len() {
        s.len() as int
    } else if s[from] == '\n' {
        from
    } else {
        next_line_feed(s, from + 1)
    }
}

/// Where the line that starts at `from` and runs up to the line feed at
/// `end` stops: before the carriage return that precedes the line feed,
/// where there is one.
pub open spec fn line_stop(s: Seq<char>, from: int, end: int) -> int {
    if from < end < s.len() && s[end - 1] == '\r' {
        end - 1
    } else {
        end
    }
}

/// The lines of `s` from index `from` on that hold a colon. A line ends at
/// a line feed, or at a carriage return followed by one, or with the text.
pub open spec fn listed_from(s: Seq<char>, from: int) -> Seq<Seq<char>>
    decreases s.len() - from,
{
    if from < 0 || from >= s.len() {
        Seq::empty()
    } else {
        let end = next_line_feed(s, from);
        if end < from || end > s.len() {
            Seq::empty()
        } else {
            let line = s.subrange(from, line_stop(s, from, end));
            let rest = if end < s.len() {
                listed_from(s, end + 1)
            } else {
                Seq::empty()
            };
            if line.contains(':') {
                seq![line] + rest
            } else {
                rest
            }
        }
    }
}

/// The nodes that a directory's answer lists: its lines that hold a colon.
pub open spec fn listed_nodes(response: Seq<char>) -> Seq<Seq<char>> {
    listed_from(response, 0)
}

/// The next line feed lies at or behind the index the search starts from.
proof fn lemma_next_line_feed(s: Seq<char>, from: int, end: int)
    requires
        0 <= from <= end <= s.len(),
        forall|i: int| from <= i < end ==> #[trigger] s[i] != '\n',
        end < s.len() ==> s[end] == '\n',
    ensures
        next_line_feed(s, from) == end,
    decreases end - from,
{
    if from < end {
        lemma_next_line_feed(s, from + 1, end);
    }
}

/// The nodes that a directory's answer lists: its lines that hold a colon.
pub fn known_nodes(response: &str) -> (nodes: Vec<String>)
    ensures
        crate::hashing::string_views(nodes@) == listed_nodes(response@),
{
    let len: usize = response.unicode_len();
    let mut nodes: Vec<String> = Vec::new();
    let mut from: usize = 0;
    assert(crate::hashing::string_views(nodes@) + listed_from(response@, 0) =~= listed_nodes(
        response@,
    ));
    while from < len
        invariant
            from <= len,
            len == response@.len(),
            crate::hashing::string_views(nodes@) + listed_from(response@, from as int)
                == listed_nodes(response@),
        decreases len - from,
    {
        let mut end: usize = from;
        let mut colon: bool = false;
        while end < len && response.get_char(end) != '\n'
            invariant
                from <= end <= len,
                len == response@.len(),
                forall|i: int| from <= i < end ==> #[trigger] response@[i] != '\n',
                colon == exists|i: int| from <= i < end && #[trigger] response@[i] == ':',
            decreases len - end,
        {
            if response.get_char(end) == ':' {
                colon = true;
            }
            end += 1;
        }
        let stop: usize = if from < end && end < len && response.get_char(end - 1) == '\r' {
            end - 1
        } else {
            end
        };
        let ghost line = response@.subrange(from as int, stop as int);
        let ghost before = crate::hashing::string_views(nodes@);
        proof {
            lemma_next_line_feed(response@, from as int, end as int);
            assert(stop == line_stop(response@, from as int, end as int));
            if colon {
                let at = choose|i: int| from <= i < end && #[trigger] response@[i] == ':';
                assert(at < stop);
                assert(line[at - from] == ':');
                assert(line.contains(':'));
            } else {
                if line.contains(':') {
                    let at = choose|i: int| 0 <= i < line.len() && line[i] == ':';
                    assert(response@[at + from] == ':');
                }
            }
        }
        if colon {
            let node = String::from_str(response.substring_char(from, stop));
            nodes.push(node);
            proof {
                assert(crate::hashing::string_views(nodes@) =~= before.push(line));
                let rest = if end < len {
                    listed_from(response@, end + 1)
                } else {
                    Seq::empty()
                };
                assert(before.push(line) + rest =~= before + (seq![line] + rest));
            }
        }
        if end < len {
            from = end + 1;
        } else {
            from = len;
        }
    }
    proof {
        assert(crate::hashing::string_views(nodes@) + Seq::<Seq<char>>::empty()
            =~= crate::hashing::string_views(nodes@));
    }
    nodes
}

} // verus!
