//! One property line, `NAME;KEY=VALUE;...:VALUE`, split into its name, its
//! parameters and its value, and written back.
use vstd::prelude::*;
use crate::parameters::{Parameters, Entries, insert_entry};
use crate::text::{
    trim, split, upper_text, join, trim_chars, split_chars, upper_chars, chars_of, string_of,
    append_chars,
};

verus! {

/// The value of a property: one bare token, or `KEY=VALUE` pairs.
pub enum Value {
    Single(String),
    Parameters(Parameters),
}

#[derive(PartialEq, Eq, Debug)]
pub enum Error {
    /// The line does not split into a name part and a value part.
    InvalidProperty(String),
    /// A parameter holds more than one `=`.
    InvalidParameter(String),
    /// A bare token stands where pairs are wanted, or beside other tokens.
    InvalidParameters(String),
}

/// The faults the tokenizer reports, each with the text that caused it.
pub enum Fault {
    /// The raw line.
    Property(Seq<char>),
    /// The trimmed parameter token.
    Parameter(Seq<char>),
    /// The trimmed token, or the name part, that stands where it may not.
    Parameters(Seq<char>),
}

/// A value as the tokenizer sees it.
pub enum Parsed {
    Bare(Seq<char>),
    Pairs(Entries),
}

/// What has been read of a value so far.
pub enum Scan {
    Nothing,
    Bare(Seq<char>),
    Pairs(Entries),
}

/// The message for a fault: its kind, then the text that caused it.
pub open spec fn fault_message(f: Fault) -> Seq<char> {
    match f {
        Fault::Property(t) => "Invalid property: "@ + t,
        Fault::Parameter(t) => "Invalid parameter: "@ + t,
        Fault::Parameters(t) => "Invalid parameters: "@ + t,
    }
}

impl Error {
    pub open spec fn fault(self) -> Fault {
        match self {
            Error::InvalidProperty(s) => Fault::Property(s@),
            Error::InvalidParameter(s) => Fault::Parameter(s@),
            Error::InvalidParameters(s) => Fault::Parameters(s@),
        }
    }

    /// A readable message naming the fault and the text that caused it.
    pub fn to_string(&self) -> (r: String)
        ensures
            r@ == fault_message(self.fault()),
    {
        match self {
            Error::InvalidProperty(s) => crate::text::message(
                "Invalid property: ",
                &chars_of(s.as_str()),
            ),
            Error::InvalidParameter(s) => crate::text::message(
                "Invalid parameter: ",
                &chars_of(s.as_str()),
            ),
            Error::InvalidParameters(s) => crate::text::message(
                "Invalid parameters: ",
                &chars_of(s.as_str()),
            ),
        }
    }
}

impl Value {
    pub open spec fn view(&self) -> Parsed {
        match self {
            Value::Single(s) => Parsed::Bare(s@),
            Value::Parameters(p) => Parsed::Pairs(p.entries()),
        }
    }
}

/// Reads one token into the value read so far.
pub open spec fn scan_step(st: Scan, raw: Seq<char>) -> Result<Scan, Fault> {
    let t = trim(raw);
    let pieces = split(t, '=');
    if pieces.len() > 2 {
        Err(Fault::Parameter(t))
    } else if pieces.len() == 2 {
        let k = upper_text(trim(pieces[0]));
        let v = trim(pieces[1]);
        match st {
            Scan::Bare(_) => Err(Fault::Parameters(t)),
            Scan::Nothing => Ok(Scan::Pairs(insert_entry(Seq::empty(), k, v))),
            Scan::Pairs(e) => Ok(Scan::Pairs(insert_entry(e, k, v))),
        }
    } else if t.len() == 0 {
        Ok(st)
    } else {
        match st {
            Scan::Nothing => Ok(Scan::Bare(t)),
            _ => Err(Fault::Parameters(t)),
        }
    }
}

/// Reads the tokens in order; the first fault ends the reading.
pub open spec fn scan(tokens: Seq<Seq<char>>) -> Result<Scan, Fault>
    decreases tokens.len(),
{
    if tokens.len() == 0 {
        Ok(Scan::Nothing)
    } else {
        match scan(tokens.drop_last()) {
            Err(f) => Err(f),
            Ok(st) => scan_step(st, tokens.last()),
        }
    }
}

pub open spec fn finish(st: Scan) -> Parsed {
    match st {
        Scan::Nothing => Parsed::Pairs(Seq::empty()),
        Scan::Bare(t) => Parsed::Bare(t),
        Scan::Pairs(e) => Parsed::Pairs(e),
    }
}

/// A value segment: the `;`-separated tokens, each trimmed; either one bare
/// token or `KEY=VALUE` pairs.
pub open spec fn parse_value(s: Seq<char>) -> Result<Parsed, Fault> {
    match scan(split(s, ';')) {
        Err(f) => Err(f),
        Ok(st) => Ok(finish(st)),
    }
}

/// A property line: name and parameters, a `:`, the value.
pub open spec fn parse_line(line: Seq<char>) -> Result<(Seq<char>, Entries, Parsed), Fault> {
    let parts = split(trim(line), ':');
    if parts.len() != 2 {
        Err(Fault::Property(line))
    } else {
        let segs = split(trim(parts[0]), ';');
        let name = upper_text(trim(segs[0]));
        match scan(segs.drop_first()) {
            Err(f) => Err(f),
            Ok(pst) => match parse_value(trim(parts[1])) {
                Err(f) => Err(f),
                Ok(v) => match finish(pst) {
                    Parsed::Bare(_) => Err(Fault::Parameters(trim(parts[0]))),
                    Parsed::Pairs(e) => Ok((name, e, v)),
                },
            },
        }
    }
}

pub open spec fn pair_text(p: (Seq<char>, Seq<char>)) -> Seq<char> {
    p.0 + seq!['='] + p.1
}

/// Each pair written `;KEY=VALUE`.
pub open spec fn params_text(e: Entries) -> Seq<char>
    decreases e.len(),
{
    if e.len() == 0 {
        Seq::empty()
    } else {
        params_text(e.drop_last()) + seq![';'] + pair_text(e.last())
    }
}

pub open spec fn value_text(v: Parsed) -> Seq<char> {
    match v {
        Parsed::Bare(t) => t,
        Parsed::Pairs(e) => join(e.map_values(|p: (Seq<char>, Seq<char>)| pair_text(p)), ';'),
    }
}

/// The text of a property line.
pub open spec fn line_text(name: Seq<char>, e: Entries, v: Parsed) -> Seq<char> {
    name + params_text(e) + seq![':'] + value_text(v)
}

pub struct Property {
    name: String,
    parameters: Parameters,
    value: Value,
}

impl Property {
    pub closed spec fn name_view(&self) -> Seq<char> {
        self.name@
    }

    pub closed spec fn entries(&self) -> Entries {
        self.parameters.entries()
    }

    pub closed spec fn value_view(&self) -> Parsed {
        self.value.view()
    }

    pub open spec fn text(&self) -> Seq<char> {
        line_text(self.name_view(), self.entries(), self.value_view())
    }

    pub fn name(&self) -> (r: &String)
        ensures
            r@ == self.name_view(),
    {
        &self.name
    }

    pub fn parameters(&self) -> (r: &Parameters)
        ensures
            r.entries() == self.entries(),
    {
        &self.parameters
    }

    pub fn value(&self) -> (r: &Value)
        ensures
            r.view() == self.value_view(),
    {
        &self.value
    }

    pub fn new(name: String, parameters: Parameters, value: Value) -> (r: Property)
        ensures
            r.name_view() == name@,
            r.entries() == parameters.entries(),
            r.value_view() == value.view(),
    {
        Property { name, parameters, value }
    }

    /// Splits a line into name, parameters and value.
    pub fn from_string(line: &str) -> (r: Result<Property, Error>)
        ensures
            r matches Ok(p) ==> parse_line(line@) == Ok::<_, Fault>(
                (p.name_view(), p.entries(), p.value_view()),
            ),
            r matches Err(e) ==> parse_line(line@) == Err::<(Seq<char>, Entries, Parsed), _>(
                e.fault(),
            ),
    {
        let cs = chars_of(line);
        Property::parse_chars(&cs)
    }

    pub fn parse_chars(cs: &Vec<char>) -> (r: Result<Property, Error>)
        ensures
            r matches Ok(p) ==> parse_line(cs@) == Ok::<_, Fault>(
                (p.name_view(), p.entries(), p.value_view()),
            ),
            r matches Err(e) ==> parse_line(cs@) == Err::<(Seq<char>, Entries, Parsed), _>(
                e.fault(),
            ),
    {
        let parts = split_chars(&trim_chars(cs), ':');
        if parts.len() != 2 {
            return Err(Error::InvalidProperty(string_of(cs)));
        }
        proof {
            assert(parts@[0]@ == split(trim(cs@), ':')[0]);
            assert(parts@[1]@ == split(trim(cs@), ':')[1]);
        }
        let head = trim_chars(&parts[0]);
        let segs = split_chars(&head, ';');
        proof {
            crate::text::lemma_split_len(head@, ';');
        }
        let name = string_of(&upper_chars(&trim_chars(&segs[0])));
        let pst = match scan_tokens(&segs, 1) {
            Ok(st) => st,
            Err(e) => return Err(e),
        };
        let value = match parse_parameters(&trim_chars(&parts[1])) {
            Ok(v) => v,
            Err(e) => return Err(e),
        };
        match finish_scan(pst) {
            Value::Single(_) => Err(Error::InvalidParameters(string_of(&head))),
            Value::Parameters(parameters) => Ok(Property { name, parameters, value }),
        }
    }

    /// The line: name, each parameter as `;KEY=VALUE`, `:`, then the value.
    pub fn to_string(&self) -> (r: String)
        ensures
            r@ == self.text(),
    {
        string_of(&self.text_chars())
    }

    pub fn text_chars(&self) -> (r: Vec<char>)
        ensures
            r@ == self.text(),
    {
        let mut r = chars_of(self.name.as_str());
        append_chars(&mut r, &params_chars(&self.parameters));
        r.push(':');
        let v = match &self.value {
            Value::Single(t) => chars_of(t.as_str()),
            Value::Parameters(p) => pairs_chars(p),
        };
        append_chars(&mut r, &v);
        r
    }
}

/// What has been read of a value so far.
pub enum ScanState {
    Nothing,
    Bare(Vec<char>),
    Pairs(Parameters),
}

impl ScanState {
    pub open spec fn view(&self) -> Scan {
        match self {
            ScanState::Nothing => Scan::Nothing,
            ScanState::Bare(t) => Scan::Bare(t@),
            ScanState::Pairs(p) => Scan::Pairs(p.entries()),
        }
    }
}

fn finish_scan(st: ScanState) -> (r: Value)
    ensures
        r.view() == finish(st.view()),
{
    match st {
        ScanState::Nothing => Value::Parameters(Parameters::new()),
        ScanState::Bare(t) => Value::Single(string_of(&t)),
        ScanState::Pairs(p) => Value::Parameters(p),
    }
}

/// A fault in a prefix is the fault of the whole.
proof fn lemma_scan_fault(s: Seq<Seq<char>>, j: int)
    requires
        0 <= j <= s.len(),
        scan(s.subrange(0, j)) is Err,
    ensures
        scan(s) == scan(s.subrange(0, j)),
    decreases s.len() - j,
{
    if j < s.len() {
        assert(s.drop_last().subrange(0, j) =~= s.subrange(0, j));
        lemma_scan_fault(s.drop_last(), j);
    } else {
        assert(s.subrange(0, j) =~= s);
    }
}

/// Reads `tokens[from..]` in order.
fn scan_tokens(tokens: &Vec<Vec<char>>, from: usize) -> (r: Result<ScanState, Error>)
    requires
        from <= tokens@.len(),
    ensures
        r matches Ok(st) ==> scan(tokens@.map_values(|t: Vec<char>| t@).subrange(from as int, tokens@.len() as int)) == Ok::<_, Fault>(st.view()),
        r matches Err(e) ==> scan(tokens@.map_values(|t: Vec<char>| t@).subrange(from as int, tokens@.len() as int)) == Err::<Scan, _>(e.fault()),
{
    let ghost views = tokens@.map_values(|t: Vec<char>| t@);
    let mut st = ScanState::Nothing;
    let mut i: usize = from;
    assert(views.subrange(from as int, from as int) =~= Seq::<Seq<char>>::empty());
    while i < tokens.len()
        invariant
            from <= i <= tokens@.len(),
            views == tokens@.map_values(|t: Vec<char>| t@),
            scan(views.subrange(from as int, i as int)) == Ok::<_, Fault>(st.view()),
        decreases tokens@.len() - i,
    {
        assert(views.subrange(from as int, i + 1).drop_last() =~= views.subrange(from as int, i as int));
        let ghost before = st.view();
        let t = trim_chars(&tokens[i]);
        let pieces = split_chars(&t, '=');
        let ghost all = views.subrange(from as int, tokens@.len() as int);
        assert(views.subrange(from as int, i + 1) =~= all.subrange(0, i + 1 - from));
        if pieces.len() > 2 {
            proof {
                lemma_scan_fault(all, i + 1 - from);
            }
            return Err(Error::InvalidParameter(string_of(&t)));
        } else if pieces.len() == 2 {
            let k = trim_chars(&pieces[0]);
            let v = trim_chars(&pieces[1]);
            proof {
                assert(pieces@[0]@ == split(t@, '=')[0]);
                assert(pieces@[1]@ == split(t@, '=')[1]);
            }
            st = match st {
                ScanState::Bare(_) => {
                    proof {
                        lemma_scan_fault(all, i + 1 - from);
                    }
                    return Err(Error::InvalidParameters(string_of(&t)));
                },
                ScanState::Nothing => {
                    let mut p = Parameters::new();
                    p.insert(string_of(&k), string_of(&v));
                    ScanState::Pairs(p)
                },
                ScanState::Pairs(mut p) => {
                    p.insert(string_of(&k), string_of(&v));
                    ScanState::Pairs(p)
                },
            };
        } else if t.len() == 0 {
        } else {
            st = match st {
                ScanState::Nothing => ScanState::Bare(t),
                _ => {
                    proof {
                        lemma_scan_fault(all, i + 1 - from);
                    }
                    return Err(Error::InvalidParameters(string_of(&t)));
                },
            };
        }
        i = i + 1;
    }
    Ok(st)
}

/// Reads a value segment: one bare token, or `KEY=VALUE` pairs separated by `;`.
pub fn parse_parameters(s: &Vec<char>) -> (r: Result<Value, Error>)
    ensures
        r matches Ok(v) ==> parse_value(s@) == Ok::<_, Fault>(v.view()),
        r matches Err(e) ==> parse_value(s@) == Err::<Parsed, _>(e.fault()),
{
    let tokens = split_chars(s, ';');
    assert(tokens@.map_values(|t: Vec<char>| t@).subrange(0, tokens@.len() as int) =~= tokens@.map_values(|t: Vec<char>| t@));
    let st = match scan_tokens(&tokens, 0) {
        Ok(st) => st,
        Err(e) => return Err(e),
    };
    Ok(finish_scan(st))
}

fn pair_chars(k: &String, v: &String) -> (r: Vec<char>)
    ensures
        r@ == pair_text((k@, v@)),
{
    let mut r = chars_of(k.as_str());
    r.push('=');
    append_chars(&mut r, &chars_of(v.as_str()));
    r
}

/// Each parameter written `;KEY=VALUE`.
fn params_chars(p: &Parameters) -> (r: Vec<char>)
    ensures
        r@ == params_text(p.entries()),
{
    let mut r: Vec<char> = Vec::new();
    let mut i: usize = 0;
    let n = p.len();
    while i < n
        invariant
            n == p.entries().len(),
            i <= n,
            r@ == params_text(p.entries().subrange(0, i as int)),
        decreases n - i,
    {
        let (k, v) = p.entry(i);
        assert((k@, v@) == p.entries()[i as int]);
        r.push(';');
        append_chars(&mut r, &pair_chars(&k, &v));
        assert(p.entries().subrange(0, i + 1).drop_last() =~= p.entries().subrange(0, i as int));
        i = i + 1;
    }
    assert(p.entries().subrange(0, n as int) =~= p.entries());
    r
}

/// The pairs written `KEY=VALUE` and joined with `;`.
fn pairs_chars(p: &Parameters) -> (r: Vec<char>)
    ensures
        r@ == value_text(Parsed::Pairs(p.entries())),
{
    let mut parts: Vec<Vec<char>> = Vec::new();
    let mut i: usize = 0;
    let n = p.len();
    let ghost texts = p.entries().map_values(|q: (Seq<char>, Seq<char>)| pair_text(q));
    while i < n
        invariant
            n == p.entries().len(),
            i <= n,
            texts == p.entries().map_values(|q: (Seq<char>, Seq<char>)| pair_text(q)),
            parts@.len() == i,
            forall|j: int| 0 <= j < i ==> #[trigger] parts@[j]@ == texts[j],
        decreases n - i,
    {
        let (k, v) = p.entry(i);
        assert((k@, v@) == p.entries()[i as int]);
        parts.push(pair_chars(&k, &v));
        i = i + 1;
    }
    assert(parts@.map_values(|t: Vec<char>| t@) =~= texts);
    crate::text::join_chars(&parts, ';')
}

} // verus!
