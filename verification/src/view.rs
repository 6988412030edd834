//! What a panel shows, as values: labels by their translation key, buttons, and
//! the colour a line is drawn in.

use vstd::prelude::*;

verus! {

/// What a row is headed with, or a hole of a sentence is filled with: a text as it
/// stands, or a sentence of the interface by its translation key.
#[derive(Clone, Debug, PartialEq, Eq)]
pub enum Caption {
    Text(String),
    Key(&'static str),
}

/// A text as it stands, or a sentence of the interface.
pub ghost enum CaptionText {
    Text(Seq<char>),
    Key(&'static str),
}

impl View for Caption {
    type V = CaptionText;

    open spec fn view(&self) -> CaptionText {
        match self {
            Caption::Text(text) => CaptionText::Text(text@),
            Caption::Key(key) => CaptionText::Key(*key),
        }
    }
}

impl Caption {
    /// A copy of the caption.
    pub fn copy(&self) -> (r: Self)
        ensures
            r == *self,
    {
        match self {
            Caption::Text(text) => Caption::Text(text.clone()),
            Caption::Key(key) => Caption::Key(*key),
        }
    }
}

/// A sentence of the interface: the key its translation is found under, and what
/// fills the translation's holes.
#[derive(Clone, Debug, PartialEq, Eq)]
pub struct Label {
    pub key: &'static str,
    pub args: Vec<(&'static str, Caption)>,
}

/// A sentence of the interface.
#[verifier::ext_equal]
pub ghost struct LabelText {
    pub key: &'static str,
    pub args: Seq<(&'static str, CaptionText)>,
}

impl View for Label {
    type V = LabelText;

    open spec fn view(&self) -> LabelText {
        LabelText {
            key: self.key,
            args: self.args@.map_values(|arg: (&'static str, Caption)| (arg.0, arg.1@)),
        }
    }
}

/// A sentence without holes.
pub open spec fn plain(key: &'static str) -> LabelText {
    LabelText { key, args: Seq::empty() }
}

/// A sentence with one hole.
pub open spec fn filled(key: &'static str, name: &'static str, value: CaptionText) -> LabelText {
    LabelText { key, args: seq![(name, value)] }
}

/// A sentence with two holes.
pub open spec fn filled_two(
    key: &'static str,
    first: &'static str,
    first_value: CaptionText,
    second: &'static str,
    second_value: CaptionText,
) -> LabelText {
    LabelText { key, args: seq![(first, first_value), (second, second_value)] }
}

/// A sentence with a text in its one hole.
pub open spec fn with(key: &'static str, name: &'static str, value: Seq<char>) -> LabelText {
    filled(key, name, CaptionText::Text(value))
}

/// A sentence with a text in each of its two holes.
pub open spec fn with_two(
    key: &'static str,
    first: &'static str,
    first_value: Seq<char>,
    second: &'static str,
    second_value: Seq<char>,
) -> LabelText {
    filled_two(key, first, CaptionText::Text(first_value), second, CaptionText::Text(second_value))
}

/// A sentence with a text in each of its three holes.
pub open spec fn with_three(
    key: &'static str,
    first: &'static str,
    first_value: Seq<char>,
    second: &'static str,
    second_value: Seq<char>,
    third: &'static str,
    third_value: Seq<char>,
) -> LabelText {
    LabelText {
        key,
        args: seq![
            (first, CaptionText::Text(first_value)),
            (second, CaptionText::Text(second_value)),
            (third, CaptionText::Text(third_value)),
        ],
    }
}

impl Label {
    /// A sentence without holes.
    pub fn plain(key: &'static str) -> (r: Self)
        ensures
            r@ == plain(key),
    {
        let r = Label { key, args: Vec::new() };
        assert(r@ =~= plain(key));
        r
    }

    /// A sentence with one hole.
    pub fn filled(key: &'static str, name: &'static str, value: Caption) -> (r: Self)
        ensures
            r@ == filled(key, name, value@),
    {
        let mut args: Vec<(&'static str, Caption)> = Vec::new();
        args.push((name, value));
        let r = Label { key, args };
        assert(r@ =~= filled(key, name, value@));
        r
    }

    /// A sentence with two holes.
    pub fn filled_two(
        key: &'static str,
        first: &'static str,
        first_value: Caption,
        second: &'static str,
        second_value: Caption,
    ) -> (r: Self)
        ensures
            r@ == filled_two(key, first, first_value@, second, second_value@),
    {
        let mut args: Vec<(&'static str, Caption)> = Vec::new();
        args.push((first, first_value));
        args.push((second, second_value));
        let r = Label { key, args };
        assert(r@ =~= filled_two(key, first, first_value@, second, second_value@));
        r
    }

    /// A sentence with a text in its one hole.
    pub fn with(key: &'static str, name: &'static str, value: &str) -> (r: Self)
        ensures
            r@ == with(key, name, value@),
    {
        Label::filled(key, name, Caption::Text(value.to_owned()))
    }

    /// A sentence with a text in each of its two holes.
    pub fn with_two(
        key: &'static str,
        first: &'static str,
        first_value: &str,
        second: &'static str,
        second_value: &str,
    ) -> (r: Self)
        ensures
            r@ == with_two(key, first, first_value@, second, second_value@),
    {
        Label::filled_two(
            key,
            first,
            Caption::Text(first_value.to_owned()),
            second,
            Caption::Text(second_value.to_owned()),
        )
    }

    /// A sentence with a text in each of its three holes.
    pub fn with_three(
        key: &'static str,
        first: &'static str,
        first_value: &str,
        second: &'static str,
        second_value: &str,
        third: &'static str,
        third_value: &str,
    ) -> (r: Self)
        ensures
            r@ == with_three(
                key,
                first,
                first_value@,
                second,
                second_value@,
                third,
                third_value@,
            ),
    {
        let mut args: Vec<(&'static str, Caption)> = Vec::new();
        args.push((first, Caption::Text(first_value.to_owned())));
        args.push((second, Caption::Text(second_value.to_owned())));
        args.push((third, Caption::Text(third_value.to_owned())));
        let r = Label { key, args };
        assert(r@.args =~= seq![
            (first, CaptionText::Text(first_value@)),
            (second, CaptionText::Text(second_value@)),
            (third, CaptionText::Text(third_value@)),
        ]);
        r
    }

    /// A copy of the sentence.
    pub fn copy(&self) -> (r: Self)
        ensures
            r@ == self@,
    {
        let mut args: Vec<(&'static str, Caption)> = Vec::new();
        let mut i: usize = 0;
        while i < self.args.len()
            invariant
                i <= self.args@.len(),
                args@.len() == i,
                forall|k: int|
                    0 <= k < i ==> (#[trigger] args@[k]).0 == self.args@[k].0 && args@[k].1@
                        == self.args@[k].1@,
            decreases self.args.len() - i,
        {
            args.push((self.args[i].0, self.args[i].1.copy()));
            i = i + 1;
        }
        let r = Label { key: self.key, args };
        assert(r@ =~= self@);
        r
    }
}

/// How prominent a button is.
#[derive(Clone, Copy, Debug, PartialEq, Eq, Structural)]
pub enum ButtonVariant {
    Primary,
    Secondary,
    Danger,
    Subtle,
}

/// A button: its identity, the key of its label, and whether it can be pressed.
#[derive(Clone, Copy, Debug, PartialEq, Eq)]
pub struct Button {
    pub id: &'static str,
    pub label: &'static str,
    pub variant: ButtonVariant,
    pub enabled: bool,
}

/// The colour a line is drawn in.
#[derive(Clone, Copy, Debug, PartialEq, Eq, Structural)]
pub enum Tone {
    Normal,
    Muted,
    Accent,
    Success,
    Danger,
}

/// A button of a form: as a button, and where it stands in the tab order.
#[derive(Clone, Copy, Debug, PartialEq, Eq)]
pub struct FormButton {
    pub id: &'static str,
    pub label: &'static str,
    pub variant: ButtonVariant,
    pub enabled: bool,
    pub tab: Option<usize>,
}

/// A check box of a form.
#[derive(Clone, Copy, Debug, PartialEq, Eq)]
pub struct Toggle {
    pub id: &'static str,
    pub label: &'static str,
    pub checked: bool,
    pub tab: usize,
}

/// A label reads as its key and what it is filled with, each under its own name.
pub proof fn a_label_reads_as_it_is(label: Label, caption: Caption, i: int)
    ensures
        label@.key == label.key,
        label@.args.len() == label.args@.len(),
        0 <= i < label.args@.len() ==> label@.args[i] == (label.args@[i].0, label.args@[i].1@),
        caption matches Caption::Text(text) ==> caption@ == CaptionText::Text(text@),
        caption matches Caption::Key(key) ==> caption@ == CaptionText::Key(key),
{
}

/// A sentence is filled with each value under the name it was given for.
pub proof fn a_sentence_is_filled_by_name(
    key: &'static str,
    first: &'static str,
    first_value: Seq<char>,
    second: &'static str,
    second_value: Seq<char>,
    third: &'static str,
    third_value: Seq<char>,
    caption: CaptionText,
    other: CaptionText,
)
    ensures
        plain(key).key == key && plain(key).args.len() == 0,
        filled(key, first, caption).key == key && filled(key, first, caption).args == seq![
            (first, caption),
        ],
        filled_two(key, first, caption, second, other).key == key && filled_two(
            key,
            first,
            caption,
            second,
            other,
        ).args == seq![(first, caption), (second, other)],
        with(key, first, first_value).key == key && with(key, first, first_value).args == seq![
            (first, CaptionText::Text(first_value)),
        ],
        with_two(key, first, first_value, second, second_value).key == key && with_two(
            key,
            first,
            first_value,
            second,
            second_value,
        ).args == seq![
            (first, CaptionText::Text(first_value)),
            (second, CaptionText::Text(second_value)),
        ],
        with_three(key, first, first_value, second, second_value, third, third_value).key == key
            && with_three(
            key,
            first,
            first_value,
            second,
            second_value,
            third,
            third_value,
        ).args == seq![
            (first, CaptionText::Text(first_value)),
            (second, CaptionText::Text(second_value)),
            (third, CaptionText::Text(third_value)),
        ],
{
}

} // verus!
