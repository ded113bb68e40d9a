//! The structured replies of the bot. The library only makes these values;
//! showing them is the chat platform's business.

use crate::text::optional_view;
use vstd::prelude::*;

verus! {

/// One named entry of a card.
#[derive(Debug, Clone, PartialEq, Eq)]
pub struct EmbedField {
    pub name: String,
    pub value: String,
    pub inline: bool,
}

/// A structured reply.
#[derive(Debug, Clone, PartialEq, Eq)]
pub struct ReplyCard {
    pub title: String,
    pub color: String,
    pub description: Option<String>,
    pub fields: Vec<EmbedField>,
    pub image_url: Option<String>,
}

/// An `EmbedField` with its strings as character sequences.
pub struct FieldView {
    pub name: Seq<char>,
    pub value: Seq<char>,
    pub inline: bool,
}

/// A `ReplyCard` with its strings as character sequences.
pub struct CardView {
    pub title: Seq<char>,
    pub color: Seq<char>,
    pub description: Option<Seq<char>>,
    pub fields: Seq<FieldView>,
    pub image_url: Option<Seq<char>>,
}

impl View for EmbedField {
    type V = FieldView;

    open spec fn view(&self) -> FieldView {
        FieldView { name: self.name@, value: self.value@, inline: self.inline }
    }
}

/// The views of a list of fields.
pub open spec fn fields_view(fields: Seq<EmbedField>) -> Seq<FieldView> {
    Seq::new(fields.len(), |i: int| fields[i]@)
}

impl View for ReplyCard {
    type V = CardView;

    open spec fn view(&self) -> CardView {
        CardView {
            title: self.title@,
            color: self.color@,
            description: optional_view(self.description),
            fields: fields_view(self.fields@),
            image_url: optional_view(self.image_url),
        }
    }
}

/// The colour of the cards about exercises and records.
pub open spec fn plain_color() -> Seq<char> {
    "#c8ccd4"@
}

/// A card with a title and a colour and nothing else yet.
pub open spec fn blank_card(title: Seq<char>, color: Seq<char>) -> CardView {
    CardView {
        title,
        color,
        description: None,
        fields: Seq::<FieldView>::empty(),
        image_url: None,
    }
}

impl ReplyCard {
    /// A card with a title and a colour and nothing else yet.
    pub fn new(title: &str, color: &str) -> (card: ReplyCard)
        ensures
            card@ == blank_card(title@, color@),
    {
        let fields: Vec<EmbedField> = Vec::new();
        assert(fields_view(fields@) =~= Seq::<FieldView>::empty());
        ReplyCard {
            title: title.to_owned(),
            color: color.to_owned(),
            description: None,
            fields,
            image_url: None,
        }
    }

    /// Appends a field after those that the card holds.
    pub fn add_field(&mut self, name: String, value: String, inline: bool)
        ensures
            final(self)@ == (CardView {
                fields: old(self)@.fields.push(FieldView { name: name@, value: value@, inline }),
                ..old(self)@
            }),
    {
        let ghost before = fields_view(self.fields@);
        self.fields.push(EmbedField { name, value, inline });
        assert(fields_view(self.fields@) =~= before.push(
            FieldView { name: name@, value: value@, inline },
        ));
    }
}

} // verus!
