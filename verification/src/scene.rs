//! Scene labels: the names under which the repetitions of a scenario appear
//! in the log. A label is the scenario's title, a space, and the index of the
//! repetition in decimal, counted from zero.

use vstd::prelude::*;
use vstd::string::*;

verus! {

/// The character of a decimal digit.
pub open spec fn digit(value: nat) -> char
    recommends
        value < 10,
{
    if value == 0 {
        '0'
    } else if value == 1 {
        '1'
    } else if value == 2 {
        '2'
    } else if value == 3 {
        '3'
    } else if value == 4 {
        '4'
    } else if value == 5 {
        '5'
    } else if value == 6 {
        '6'
    } else if value == 7 {
        '7'
    } else if value == 8 {
        '8'
    } else {
        '9'
    }
}

/// `value` in decimal, without leading zeros.
pub open spec fn decimal(value: nat) -> Seq<char>
    decreases value,
{
    if value < 10 {
        seq![digit(value)]
    } else {
        decimal(value / 10).push(digit(value % 10))
    }
}

/// The label of repetition number `index` of the scenario called `title`.
pub open spec fn scene_label(title: Seq<char>, index: nat) -> Seq<char> {
    title + seq![' '] + decimal(index)
}

/// The labels of the first `count` repetitions of the scenario called `title`,
/// in rising order of their indices.
pub open spec fn scene_labels(title: Seq<char>, count: nat) -> Seq<Seq<char>> {
    Seq::new(count, |index: int| scene_label(title, index as nat))
}

/// The characters of each string of a list.
pub open spec fn texts(strings: Seq<String>) -> Seq<Seq<char>> {
    Seq::new(strings.len(), |i: int| strings[i]@)
}

/// Different numbers are written differently.
pub proof fn lemma_decimal_is_injective(a: nat, b: nat)
    requires
        decimal(a) == decimal(b),
    ensures
        a == b,
    decreases a,
{
    if a < 10 && b < 10 {
        assert(decimal(a)[0] == digit(a));
        assert(decimal(b)[0] == digit(b));
    } else if a >= 10 && b >= 10 {
        let front_a = decimal(a / 10);
        let front_b = decimal(b / 10);
        assert(decimal(a) == front_a.push(digit(a % 10)));
        assert(decimal(b) == front_b.push(digit(b % 10)));
        assert(front_a =~= decimal(a).drop_last());
        assert(front_b =~= decimal(b).drop_last());
        assert(decimal(a).last() == digit(a % 10));
        assert(decimal(b).last() == digit(b % 10));
        lemma_decimal_is_injective(a / 10, b / 10);
        assert(a % 10 == b % 10);
    } else if a >= 10 {
        lemma_decimal_is_not_empty(a / 10);
        assert(decimal(a).len() == decimal(a / 10).len() + 1);
        assert(decimal(b).len() == 1);
    } else {
        lemma_decimal_is_not_empty(b / 10);
        assert(decimal(b).len() == decimal(b / 10).len() + 1);
        assert(decimal(a).len() == 1);
    }
}

/// Every number has at least one digit.
proof fn lemma_decimal_is_not_empty(value: nat)
    ensures
        decimal(value).len() >= 1,
    decreases value,
{
    if value >= 10 {
        lemma_decimal_is_not_empty(value / 10);
    }
}

/// The repetitions of one scenario have labels that differ from each other.
pub proof fn lemma_scene_labels_differ(title: Seq<char>, first: nat, second: nat)
    requires
        first != second,
    ensures
        scene_label(title, first) != scene_label(title, second),
{
    if scene_label(title, first) == scene_label(title, second) {
        let lead = title + seq![' '];
        assert(scene_label(title, first).skip(lead.len() as int) =~= decimal(first));
        assert(scene_label(title, second).skip(lead.len() as int) =~= decimal(second));
        lemma_decimal_is_injective(first, second);
    }
}

/// The text of one decimal digit.
fn digit_text(value: usize) -> (text: &'static str)
    requires
        value < 10,
    ensures
        text@ == seq![digit(value as nat)],
{
    proof {
        reveal_strlit("0");
        reveal_strlit("1");
        reveal_strlit("2");
        reveal_strlit("3");
        reveal_strlit("4");
        reveal_strlit("5");
        reveal_strlit("6");
        reveal_strlit("7");
        reveal_strlit("8");
        reveal_strlit("9");
    }
    let text = if value == 0 {
        "0"
    } else if value == 1 {
        "1"
    } else if value == 2 {
        "2"
    } else if value == 3 {
        "3"
    } else if value == 4 {
        "4"
    } else if value == 5 {
        "5"
    } else if value == 6 {
        "6"
    } else if value == 7 {
        "7"
    } else if value == 8 {
        "8"
    } else {
        "9"
    };
    assert(text@ =~= seq![digit(value as nat)]);
    text
}

/// Appends `value` in decimal to `out`.
pub fn write_decimal(out: &mut String, value: usize)
    ensures
        final(out)@ == old(out)@ + decimal(value as nat),
    decreases value,
{
    if value >= 10 {
        write_decimal(out, value / 10);
    }
    out.append(digit_text(value % 10));
    assert(out@ =~= old(out)@ + decimal(value as nat));
}

/// The label of repetition number `index` of the scenario called `title`.
pub fn label_scene(title: &String, index: usize) -> (label: String)
    ensures
        label@ == scene_label(title@, index as nat),
{
    proof {
        reveal_strlit(" ");
    }
    let mut label = title.clone();
    label.append(" ");
    write_decimal(&mut label, index);
    assert(label@ =~= scene_label(title@, index as nat));
    label
}

/// The labels of the first `count` repetitions of the scenario called `title`.
pub fn label_scenes(title: &String, count: usize) -> (labels: Vec<String>)
    ensures
        texts(labels@) == scene_labels(title@, count as nat),
{
    let mut labels: Vec<String> = Vec::new();
    let mut index: usize = 0;
    while index < count
        invariant
            index <= count,
            labels@.len() == index,
            forall|i: int| 0 <= i < index ==> (#[trigger] labels@[i])@ == scene_label(title@, i as nat),
        decreases count - index,
    {
        labels.push(label_scene(title, index));
        index += 1;
    }
    assert(texts(labels@) =~= scene_labels(title@, count as nat));
    labels
}

} // verus!
