//! A text of property lines, one property per non-blank line.
use vstd::prelude::*;
use crate::parameters::Entries;
use crate::property::{Property, Error, Fault, Parsed, parse_line};
use crate::text::{trim, split, join, trim_chars, split_chars, chars_of, string_of};

verus! {

pub type LineModel = (Seq<char>, Entries, Parsed);

/// Reads the lines in order: blank ones are skipped, the first fault ends the reading.
pub open spec fn parse_lines(lines: Seq<Seq<char>>) -> Result<Seq<LineModel>, Fault>
    decreases lines.len(),
{
    if lines.len() == 0 {
        Ok(Seq::empty())
    } else {
        match parse_lines(lines.drop_last()) {
            Err(f) => Err(f),
            Ok(ps) => if trim(lines.last()).len() == 0 {
                Ok(ps)
            } else {
                match parse_line(trim(lines.last())) {
                    Err(f) => Err(f),
                    Ok(p) => Ok(ps.push(p)),
                }
            },
        }
    }
}

/// The properties of a text: its lines are split at `\n`.
pub open spec fn parse_text(s: Seq<char>) -> Result<Seq<LineModel>, Fault> {
    parse_lines(split(s, '\n'))
}

pub struct Properties {
    items: Vec<Property>,
}

impl Properties {
    pub closed spec fn items(&self) -> Seq<Property> {
        self.items@
    }

    pub open spec fn models(&self) -> Seq<LineModel> {
        self.items().map_values(|p: Property| (p.name_view(), p.entries(), p.value_view()))
    }

    /// The lines of the properties, joined with `\n`.
    pub open spec fn text(&self) -> Seq<char> {
        join(self.items().map_values(|p: Property| p.text()), '\n')
    }

    pub fn new() -> (r: Properties)
        ensures
            r.items() == Seq::<Property>::empty(),
    {
        Properties { items: Vec::new() }
    }

    pub fn push(&mut self, property: Property)
        ensures
            final(self).items() == old(self).items().push(property),
    {
        self.items.push(property);
    }

    pub fn len(&self) -> (r: usize)
        ensures
            r == self.items().len(),
    {
        self.items.len()
    }

    /// Hands out the properties, in order.
    pub fn into_items(self) -> (r: Vec<Property>)
        ensures
            r@ == self.items(),
    {
        self.items
    }

    pub fn to_string(&self) -> (r: String)
        ensures
            r@ == self.text(),
    {
        let mut parts: Vec<Vec<char>> = Vec::new();
        let mut i: usize = 0;
        let ghost texts = self.items().map_values(|p: Property| p.text());
        while i < self.items.len()
            invariant
                i <= self.items@.len(),
                texts == self.items().map_values(|p: Property| p.text()),
                parts@.len() == i,
                forall|j: int| 0 <= j < i ==> #[trigger] parts@[j]@ == texts[j],
            decreases self.items@.len() - i,
        {
            parts.push(self.items[i].text_chars());
            i = i + 1;
        }
        assert(parts@.map_values(|t: Vec<char>| t@) =~= texts);
        string_of(&crate::text::join_chars(&parts, '\n'))
    }

    /// Tokenizes each non-blank line, in order; the first bad line is the error.
    pub fn from_str(s: &str) -> (r: Result<Properties, Error>)
        ensures
            r matches Ok(ps) ==> parse_text(s@) == Ok::<_, Fault>(ps.models()),
            r matches Err(e) ==> parse_text(s@) == Err::<Seq<LineModel>, _>(e.fault()),
    {
        let cs = chars_of(s);
        let lines = split_chars(&cs, '\n');
        let ghost views = lines@.map_values(|t: Vec<char>| t@);
        let mut items: Vec<Property> = Vec::new();
        let mut i: usize = 0;
        assert(views.subrange(0, 0) =~= Seq::<Seq<char>>::empty());
        assert(items@.map_values(|p: Property| (p.name_view(), p.entries(), p.value_view())) =~= Seq::<LineModel>::empty());
        while i < lines.len()
            invariant
                i <= lines@.len(),
                views == lines@.map_values(|t: Vec<char>| t@),
                views == split(s@, '\n'),
                parse_lines(views.subrange(0, i as int)) == Ok::<_, Fault>(
                    items@.map_values(|p: Property| (p.name_view(), p.entries(), p.value_view())),
                ),
            decreases lines@.len() - i,
        {
            assert(views.subrange(0, i + 1).drop_last() =~= views.subrange(0, i as int));
            let line = trim_chars(&lines[i]);
            if line.len() > 0 {
                match Property::parse_chars(&line) {
                    Ok(p) => {
                        let ghost before = items@;
                        items.push(p);
                        assert(items@.map_values(|p: Property| (p.name_view(), p.entries(), p.value_view())) =~= before.map_values(|p: Property| (p.name_view(), p.entries(), p.value_view())).push((p.name_view(), p.entries(), p.value_view())));
                    },
                    Err(e) => {
                        proof {
                            lemma_parse_lines_fault(views, i + 1);
                        }
                        return Err(e);
                    },
                }
            }
            i = i + 1;
        }
        assert(views.subrange(0, lines@.len() as int) =~= views);
        Ok(Properties { items })
    }
}

/// A fault in a prefix of the lines is the fault of the whole text.
proof fn lemma_parse_lines_fault(s: Seq<Seq<char>>, j: int)
    requires
        0 <= j <= s.len(),
        parse_lines(s.subrange(0, j)) is Err,
    ensures
        parse_lines(s) == parse_lines(s.subrange(0, j)),
    decreases s.len() - j,
{
    if j < s.len() {
        assert(s.drop_last().subrange(0, j) =~= s.subrange(0, j));
        lemma_parse_lines_fault(s.drop_last(), j);
    } else {
        assert(s.subrange(0, j) =~= s);
    }
}

} // verus!
