use vstd::prelude::*;
use crate::model::CommandType;
use crate::select::{identity_order, shuffled_order};

verus! {

/// The text of one command: `M x y ` for a move, `L x y ` for a line-to, each
/// followed by a space.
pub open spec fn command_text_of(kind: CommandType, x: Seq<char>, y: Seq<char>) -> Seq<char> {
    let head = if kind == CommandType::Move {
        "M "@
    } else {
        "L "@
    };
    head + x + " "@ + y + " "@
}

/// All parts, concatenated in order.
pub open spec fn concat_all(parts: Seq<Seq<char>>) -> Seq<char>
    decreases parts.len(),
{
    if parts.len() == 0 {
        Seq::empty()
    } else {
        concat_all(parts.drop_last()) + parts.last()
    }
}

/// The whitespace characters trimmed off the end of path data.
pub open spec fn is_space(c: char) -> bool {
    c == ' ' || c == '\t' || c == '\n' || c == '\r'
}

/// `s` without its trailing whitespace.
pub open spec fn trim_end_of(s: Seq<char>) -> Seq<char>
    decreases s.len(),
{
    if s.len() > 0 && is_space(s.last()) {
        trim_end_of(s.drop_last())
    } else {
        s
    }
}

/// The stroke-only path element whose data is the trimmed concatenation of the
/// command texts.
pub open spec fn path_element_of(commands: Seq<Seq<char>>, color: Seq<char>, stroke_width: Seq<char>) -> Seq<char> {
    "<path d=\""@ + trim_end_of(concat_all(commands)) + "\" stroke=\""@ + color
        + "\" stroke-width=\""@ + stroke_width + "\" fill=\"none\" />"@
}

/// The document of the given size, its view box the same size, holding the
/// elements in order.
pub open spec fn document_of(width: Seq<char>, height: Seq<char>, elements: Seq<Seq<char>>) -> Seq<char> {
    "<svg width=\""@ + width + "\" height=\""@ + height + "\" viewBox=\"0 0 "@ + width + " "@
        + height + "\" xmlns=\"http://www.w3.org/2000/svg\" version=\"1.1\">"@
        + concat_all(elements) + "</svg>"@
}

/// The view of a list of strings.
pub open spec fn strings_view(v: Seq<String>) -> Seq<Seq<char>> {
    v.map_values(|s: String| s@)
}

/// Writes one command, its coordinates given as text.
pub fn command_text(kind: CommandType, x: &str, y: &str) -> (r: String)
    ensures
        r@ == command_text_of(kind, x@, y@),
{
    let mut s = match kind {
        CommandType::Move => String::from_str("M "),
        CommandType::LineTo => String::from_str("L "),
    };
    s.append(x);
    s.append(" ");
    s.append(y);
    s.append(" ");
    s
}

/// Copies `s` without its trailing whitespace.
pub fn trim_end(s: &str) -> (r: String)
    ensures
        r@ == trim_end_of(s@),
{
    let mut k = s.unicode_len();
    assert(s@.subrange(0, k as int) == s@);
    while k > 0 && is_space_char(s.get_char(k - 1))
        invariant
            k <= s@.len(),
            trim_end_of(s@) == trim_end_of(s@.subrange(0, k as int)),
        decreases k,
    {
        assert(s@.subrange(0, k as int).drop_last() == s@.subrange(0, k - 1));
        k = k - 1;
    }
    String::from_str(s.substring_char(0, k))
}

fn is_space_char(c: char) -> (r: bool)
    ensures
        r == is_space(c),
{
    c == ' ' || c == '\t' || c == '\n' || c == '\r'
}

/// Concatenates `parts` in order.
pub fn concat_strings(parts: &Vec<String>) -> (r: String)
    ensures
        r@ == concat_all(strings_view(parts@)),
{
    let mut s = String::new();
    let mut i: usize = 0;
    while i < parts.len()
        invariant
            i <= parts@.len(),
            s@ == concat_all(strings_view(parts@.take(i as int))),
        decreases parts@.len() - i,
    {
        s.append(parts[i].as_str());
        assert(strings_view(parts@.take(i + 1)).drop_last() == strings_view(parts@.take(i as int)));
        i = i + 1;
    }
    assert(parts@.take(i as int) == parts@);
    s
}

/// Writes a stroke-only path element: its data is the command texts joined and
/// trimmed at the end, with no fill.
pub fn path_element(commands: &Vec<String>, color: &str, stroke_width: &str) -> (r: String)
    ensures
        r@ == path_element_of(strings_view(commands@), color@, stroke_width@),
{
    let joined = concat_strings(commands);
    let d = trim_end(joined.as_str());
    let mut s = String::from_str("<path d=\"");
    s.append(d.as_str());
    s.append("\" stroke=\"");
    s.append(color);
    s.append("\" stroke-width=\"");
    s.append(stroke_width);
    s.append("\" fill=\"none\" />");
    s
}

/// Wraps the elements in the root element; `width` and `height` are written
/// both as its size and as its view box.
pub fn svg_document(width: &str, height: &str, elements: &Vec<String>) -> (r: String)
    ensures
        r@ == document_of(width@, height@, strings_view(elements@)),
{
    let body = concat_strings(elements);
    let mut s = String::from_str("<svg width=\"");
    s.append(width);
    s.append("\" height=\"");
    s.append(height);
    s.append("\" viewBox=\"0 0 ");
    s.append(width);
    s.append(" ");
    s.append(height);
    s.append("\" xmlns=\"http://www.w3.org/2000/svg\" version=\"1.1\">");
    s.append(body.as_str());
    s.append("</svg>");
    s
}

/// `order` lists each of `0..n` exactly once.
pub open spec fn is_order_of(order: Seq<usize>, n: nat) -> bool {
    order.len() == n && order.to_multiset() == identity_order(n).to_multiset()
}

/// The elements taken in the given order.
pub open spec fn arranged(elements: Seq<Seq<char>>, order: Seq<usize>) -> Seq<Seq<char>> {
    order.map_values(|i: usize| elements[i as int])
}

proof fn lemma_order_in_range(order: Seq<usize>, n: nat)
    requires
        is_order_of(order, n),
    ensures
        forall|k: int| 0 <= k < order.len() ==> #[trigger] order[k] < n,
{
    assert forall|k: int| 0 <= k < order.len() implies #[trigger] order[k] < n by {
        order.to_multiset_ensures();
        identity_order(n).to_multiset_ensures();
        let x = order[k];
        assert(order.contains(x));
        assert(order.to_multiset().count(x) > 0);
        assert(identity_order(n).to_multiset().count(x) > 0);
        assert(identity_order(n).contains(x));
        let j = choose|j: int| 0 <= j < n && identity_order(n)[j] == x;
        assert(x == j as usize);
    }
}

/// Takes the elements in the given order.
pub fn arrange(elements: &Vec<String>, order: &Vec<usize>) -> (r: Vec<String>)
    requires
        forall|k: int| 0 <= k < order@.len() ==> #[trigger] order@[k] < elements@.len(),
    ensures
        strings_view(r@) == arranged(strings_view(elements@), order@),
{
    let mut out: Vec<String> = Vec::new();
    let mut k: usize = 0;
    while k < order.len()
        invariant
            k <= order@.len(),
            forall|j: int| 0 <= j < order@.len() ==> #[trigger] order@[j] < elements@.len(),
            strings_view(out@) == arranged(strings_view(elements@), order@.take(k as int)),
        decreases order@.len() - k,
    {
        let ghost before = out@;
        let e = elements[order[k]].clone();
        out.push(e);
        assert(out@ == before.push(e));
        assert(strings_view(out@) =~= strings_view(before).push(elements@[order@[k as int] as int]@));
        assert(order@.take(k + 1) == order@.take(k as int).push(order@[k as int]));
        assert(strings_view(out@) =~= arranged(strings_view(elements@), order@.take(k + 1)));
        k = k + 1;
    }
    assert(order@.take(k as int) == order@);
    out
}

/// Wraps the elements, drawn in a uniformly shuffled order, in the root element
/// of the given size.
pub fn shuffled_document(width: &str, height: &str, elements: &Vec<String>) -> (r: String)
    ensures
        exists|order: Seq<usize>|
            is_order_of(order, elements@.len()) && r@ == document_of(
                width@,
                height@,
                #[trigger] arranged(strings_view(elements@), order),
            ),
{
    let order = shuffled_order(elements.len());
    proof {
        lemma_order_in_range(order@, elements@.len());
    }
    let drawn = arrange(elements, &order);
    let r = svg_document(width, height, &drawn);
    assert(is_order_of(order@, elements@.len()));
    r
}

} // verus!
