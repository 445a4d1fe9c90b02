//! The rule set: one start anchor, recurrence and exclusion patterns, and
//! explicit include and exclude lists, checked against each other.
use vstd::prelude::*;
use crate::date_list::{DateList, ListModel, list_of, list_line, expected_type, list_error};
use crate::dtstart::{DtStart, StartModel, start_of, start_line, start_error};
use crate::keys::{name_dtstart, name_rrule, name_exrule, name_exdate, name_rdate};
use crate::properties::{Properties, LineModel, parse_text};
use crate::property::{Property, line_text, fault_message};
use crate::rrule::{RRule, RecurModel, rule_of, rule_line, rule_line_error};
use crate::text::{join, chars_of, string_of, same_chars};
use crate::value_type::ValueType;

verus! {

/// What the lines of a text hold, by kind, in their order.
pub struct CalModel {
    pub starts: Seq<StartModel>,
    pub rrules: Seq<RecurModel>,
    pub exrules: Seq<RecurModel>,
    pub exdates: Seq<ListModel>,
    pub rdates: Seq<ListModel>,
}

pub open spec fn empty_calendar() -> CalModel {
    CalModel {
        starts: Seq::empty(),
        rrules: Seq::empty(),
        exrules: Seq::empty(),
        exdates: Seq::empty(),
        rdates: Seq::empty(),
    }
}

/// Files one line by its name; lines of other names are passed over.
#[verifier::opaque]
pub open spec fn add_line(c: CalModel, m: LineModel) -> Option<CalModel> {
    if m.0 == name_dtstart() {
        match start_of(m) {
            Some(s) => Some(CalModel { starts: c.starts.push(s), ..c }),
            None => None,
        }
    } else if m.0 == name_rrule() {
        match rule_of(m) {
            Some(r) => Some(CalModel { rrules: c.rrules.push(r), ..c }),
            None => None,
        }
    } else if m.0 == name_exrule() {
        match rule_of(m) {
            Some(r) => Some(CalModel { exrules: c.exrules.push(r), ..c }),
            None => None,
        }
    } else if m.0 == name_exdate() {
        match list_of(m) {
            Some(l) => Some(CalModel { exdates: c.exdates.push(l), ..c }),
            None => None,
        }
    } else if m.0 == name_rdate() {
        match list_of(m) {
            Some(l) => Some(CalModel { rdates: c.rdates.push(l), ..c }),
            None => None,
        }
    } else {
        Some(c)
    }
}

/// The message for a line whose component does not read: the property's
/// name, `: `, then the component's own message.
pub open spec fn line_error(m: LineModel) -> Seq<char> {
    let inner = if m.0 == name_dtstart() {
        start_error(m)
    } else if m.0 == name_rrule() || m.0 == name_exrule() {
        rule_line_error(m)
    } else {
        list_error(m)
    };
    m.0 + seq![':', ' '] + inner
}

/// The message of the first line that cannot be filed.
pub open spec fn cal_error(ms: Seq<LineModel>) -> Seq<char>
    decreases ms.len(),
{
    if ms.len() == 0 {
        Seq::empty()
    } else if assemble(ms.drop_last()) is None {
        cal_error(ms.drop_last())
    } else {
        line_error(ms.last())
    }
}

/// `name: message`.
fn named_error(name: &Vec<char>, e: String) -> (r: String)
    ensures
        r@ == name@ + seq![':', ' '] + e@,
{
    let mut m = name.clone();
    m.push(':');
    m.push(' ');
    crate::text::append_chars(&mut m, &chars_of(e.as_str()));
    string_of(&m)
}

/// Files the lines in order; a line that does not read spoils the whole.
pub open spec fn assemble(ms: Seq<LineModel>) -> Option<CalModel>
    decreases ms.len(),
{
    if ms.len() == 0 {
        Some(empty_calendar())
    } else {
        match assemble(ms.drop_last()) {
            None => None,
            Some(c) => add_line(c, ms.last()),
        }
    }
}

/// The contents of a rule set.
pub struct SetModel {
    pub start: StartModel,
    pub rrules: Seq<RecurModel>,
    pub exrules: Seq<RecurModel>,
    pub exdates: Seq<ListModel>,
    pub rdates: Seq<ListModel>,
}

/// A pattern's `UNTIL`, where given, has the anchor's value type.
pub open spec fn rule_fits(kind: ValueType, r: RecurModel) -> bool {
    r.until is Some ==> r.until->0.value_type() == kind
}

/// A list's values have the anchor's value type.
pub open spec fn list_fits(kind: ValueType, l: ListModel) -> bool {
    expected_type(l.0, l.2) is Some ==> expected_type(l.0, l.2)->0 == kind
}

pub open spec fn rules_fit(kind: ValueType, rs: Seq<RecurModel>) -> bool {
    forall|i: int| 0 <= i < rs.len() ==> rule_fits(kind, #[trigger] rs[i])
}

pub open spec fn lists_fit(kind: ValueType, ls: Seq<ListModel>) -> bool {
    forall|i: int| 0 <= i < ls.len() ==> list_fits(kind, #[trigger] ls[i])
}

/// Every component agrees with the anchor's value type.
pub open spec fn set_fits(m: SetModel) -> bool {
    let k = m.start.0.value_type();
    &&& rules_fit(k, m.rrules)
    &&& rules_fit(k, m.exrules)
    &&& lists_fit(k, m.exdates)
    &&& lists_fit(k, m.rdates)
}

/// The rule set that a text describes: its lines must read, there must be
/// exactly one `DTSTART`, and every component must agree with it.
pub open spec fn set_of_text(s: Seq<char>) -> Option<SetModel> {
    match parse_text(s) {
        Err(_) => None,
        Ok(ms) => match assemble(ms) {
            None => None,
            Some(c) => if c.starts.len() != 1 {
                None
            } else {
                let m = SetModel {
                    start: c.starts[0],
                    rrules: c.rrules,
                    exrules: c.exrules,
                    exdates: c.exdates,
                    rdates: c.rdates,
                };
                if set_fits(m) {
                    Some(m)
                } else {
                    None
                }
            },
        },
    }
}

/// The rule set `m` with a text's components added: the text's lines must
/// read and hold at most one `DTSTART`, which then replaces the anchor; the
/// text's patterns and lists go after the present ones, and every component
/// must agree with the anchor.
pub open spec fn merge_text(m: SetModel, s: Seq<char>) -> Option<SetModel> {
    match parse_text(s) {
        Err(_) => None,
        Ok(ms) => match assemble(ms) {
            None => None,
            Some(c) => if c.starts.len() > 1 {
                None
            } else {
                let n = SetModel {
                    start: if c.starts.len() == 1 {
                        c.starts[0]
                    } else {
                        m.start
                    },
                    rrules: m.rrules + c.rrules,
                    exrules: m.exrules + c.exrules,
                    exdates: m.exdates + c.exdates,
                    rdates: m.rdates + c.rdates,
                };
                if set_fits(n) {
                    Some(n)
                } else {
                    None
                }
            },
        },
    }
}

/// The lines of the non-empty lists, in order.
pub open spec fn list_lines(name: Seq<char>, ls: Seq<ListModel>) -> Seq<LineModel>
    decreases ls.len(),
{
    if ls.len() == 0 {
        Seq::empty()
    } else if ls.last().0.len() == 0 {
        list_lines(name, ls.drop_last())
    } else {
        list_lines(name, ls.drop_last()).push(list_line(name, ls.last()))
    }
}

/// The lines of a rule set: `DTSTART`, then each `RRULE`, each `EXRULE`, each
/// non-empty `EXDATE` and each non-empty `RDATE`, in their order.
pub open spec fn set_lines(m: SetModel) -> Seq<LineModel> {
    seq![start_line(m.start)] + m.rrules.map_values(|r: RecurModel| rule_line(name_rrule(), r))
        + m.exrules.map_values(|r: RecurModel| rule_line(name_exrule(), r)) + list_lines(
        name_exdate(),
        m.exdates,
    ) + list_lines(name_rdate(), m.rdates)
}

/// The text of a rule set: its lines joined with `\n`.
pub open spec fn set_text(m: SetModel) -> Seq<char> {
    join(set_lines(m).map_values(|l: LineModel| line_text(l.0, l.1, l.2)), '\n')
}

pub open spec fn rule_models(v: Seq<RRule>) -> Seq<RecurModel> {
    v.map_values(|r: RRule| r.model())
}

pub open spec fn list_models(v: Seq<DateList>) -> Seq<ListModel> {
    v.map_values(|l: DateList| l.model())
}

pub open spec fn lists_wf(v: Seq<DateList>) -> bool {
    forall|i: int| 0 <= i < v.len() ==> (#[trigger] v[i]).wf()
}

/// The components of a text, by kind, as they were read.
pub struct Calendar {
    dtstarts: Vec<DtStart>,
    rrules: Vec<RRule>,
    exrules: Vec<RRule>,
    exdates: Vec<DateList>,
    rdates: Vec<DateList>,
}

impl Calendar {
    pub closed spec fn model(&self) -> CalModel {
        CalModel {
            starts: self.dtstarts@.map_values(|d: DtStart| d.model()),
            rrules: rule_models(self.rrules@),
            exrules: rule_models(self.exrules@),
            exdates: list_models(self.exdates@),
            rdates: list_models(self.rdates@),
        }
    }

    pub closed spec fn wf(&self) -> bool {
        &&& forall|i: int| 0 <= i < self.dtstarts@.len() ==> (#[trigger] self.dtstarts@[i]).wf()
        &&& lists_wf(self.exdates@)
        &&& lists_wf(self.rdates@)
    }

    /// Files one property by its name.
    fn file(&mut self, p: &Property) -> (r: Result<(), String>)
        requires
            old(self).wf(),
        ensures
            r is Ok ==> add_line(old(self).model(), (p.name_view(), p.entries(), p.value_view())) == Some(final(self).model()) && final(self).wf(),
            r is Err ==> add_line(old(self).model(), (p.name_view(), p.entries(), p.value_view())) is None,
            r matches Err(e) ==> e@ == line_error((p.name_view(), p.entries(), p.value_view())),
    {
        let ghost before = self.model();
        reveal(add_line);
        let name = chars_of(p.name().as_str());
        if same_chars(&name, &crate::keys::dtstart()) {
            match DtStart::from_property(p) {
                Ok(d) => {
                    self.dtstarts.push(d);
                    assert(self.dtstarts@.map_values(|d: DtStart| d.model()) =~= before.starts.push(d.model()));
                },
                Err(e) => {
                    return Err(named_error(&name, e));
                },
            }
        } else if same_chars(&name, &crate::keys::rrule()) {
            match RRule::from_property(p) {
                Ok(x) => {
                    self.rrules.push(x);
                    assert(rule_models(self.rrules@) =~= before.rrules.push(x.model()));
                },
                Err(e) => {
                    return Err(named_error(&name, e));
                },
            }
        } else if same_chars(&name, &crate::keys::exrule()) {
            match RRule::from_property(p) {
                Ok(x) => {
                    self.exrules.push(x);
                    assert(rule_models(self.exrules@) =~= before.exrules.push(x.model()));
                },
                Err(e) => {
                    return Err(named_error(&name, e));
                },
            }
        } else if same_chars(&name, &crate::keys::exdate()) {
            match DateList::from_property(p) {
                Ok(l) => {
                    self.exdates.push(l);
                    assert(list_models(self.exdates@) =~= before.exdates.push(l.model()));
                },
                Err(e) => {
                    return Err(named_error(&name, e));
                },
            }
        } else if same_chars(&name, &crate::keys::rdate()) {
            match DateList::from_property(p) {
                Ok(l) => {
                    self.rdates.push(l);
                    assert(list_models(self.rdates@) =~= before.rdates.push(l.model()));
                },
                Err(e) => {
                    return Err(named_error(&name, e));
                },
            }
        }
        Ok(())
    }

    /// Files each property by its name: `DTSTART`, `RRULE`, `EXRULE`,
    /// `EXDATE`, `RDATE`; properties of other names are passed over.
    pub fn from_properties(items: &Vec<Property>) -> (r: Result<Calendar, String>)
        ensures
            r matches Ok(c) ==> assemble(
                items@.map_values(|p: Property| (p.name_view(), p.entries(), p.value_view())),
            ) == Some(c.model()) && c.wf(),
            r is Err ==> assemble(
                items@.map_values(|p: Property| (p.name_view(), p.entries(), p.value_view())),
            ) is None,
            r matches Err(e) ==> e@ == cal_error(
                items@.map_values(|p: Property| (p.name_view(), p.entries(), p.value_view())),
            ),
    {
        let ghost ms = items@.map_values(|p: Property| (p.name_view(), p.entries(), p.value_view()));
        let mut c = Calendar {
            dtstarts: Vec::new(),
            rrules: Vec::new(),
            exrules: Vec::new(),
            exdates: Vec::new(),
            rdates: Vec::new(),
        };
        assert(ms.subrange(0, 0) =~= Seq::<LineModel>::empty());
        assert(c.dtstarts@.map_values(|d: DtStart| d.model()) =~= Seq::<StartModel>::empty());
        assert(rule_models(c.rrules@) =~= Seq::<RecurModel>::empty());
        assert(rule_models(c.exrules@) =~= Seq::<RecurModel>::empty());
        assert(list_models(c.exdates@) =~= Seq::<ListModel>::empty());
        assert(list_models(c.rdates@) =~= Seq::<ListModel>::empty());
        let mut i: usize = 0;
        while i < items.len()
            invariant
                i <= items@.len(),
                ms == items@.map_values(|p: Property| (p.name_view(), p.entries(), p.value_view())),
                assemble(ms.subrange(0, i as int)) == Some(c.model()),
                c.wf(),
            decreases items@.len() - i,
        {
            assert(ms.subrange(0, i + 1).drop_last() =~= ms.subrange(0, i as int));
            let p = &items[i];
            assert(ms[i as int] == (p.name_view(), p.entries(), p.value_view()));
            let ghost before = c.model();
            match c.file(p) {
                Ok(()) => {},
                Err(e) => {
                    proof {
                        lemma_assemble_fail(ms, i + 1);
                        lemma_cal_error(ms, i + 1);
                        assert(ms.subrange(0, i + 1).last() == ms[i as int]);
                    }
                    return Err(e);
                },
            }
            i = i + 1;
        }
        assert(ms.subrange(0, items@.len() as int) =~= ms);
        Ok(c)
    }
}

#[derive(Clone)]
pub struct RRuleSet {
    dtstart: DtStart,
    rrules: Vec<RRule>,
    exrules: Vec<RRule>,
    exdates: Vec<DateList>,
    rdates: Vec<DateList>,
}

impl RRuleSet {
    pub closed spec fn model(&self) -> SetModel {
        SetModel {
            start: self.dtstart.model(),
            rrules: rule_models(self.rrules@),
            exrules: rule_models(self.exrules@),
            exdates: list_models(self.exdates@),
            rdates: list_models(self.rdates@),
        }
    }

    /// The anchor and the lists obey their own rules, and every component
    /// agrees with the anchor's value type.
    pub closed spec fn wf(&self) -> bool {
        &&& self.dtstart.wf()
        &&& lists_wf(self.exdates@)
        &&& lists_wf(self.rdates@)
        &&& set_fits(self.model())
    }

    /// A rule set of the anchor alone.
    pub fn new(dtstart: DtStart) -> (r: RRuleSet)
        requires
            dtstart.wf(),
        ensures
            r.model() == (SetModel {
                start: dtstart.model(),
                rrules: Seq::empty(),
                exrules: Seq::empty(),
                exdates: Seq::empty(),
                rdates: Seq::empty(),
            }),
            r.wf(),
    {
        let r = RRuleSet {
            dtstart,
            rrules: Vec::new(),
            exrules: Vec::new(),
            exdates: Vec::new(),
            rdates: Vec::new(),
        };
        assert(rule_models(r.rrules@) =~= Seq::<RecurModel>::empty());
        assert(rule_models(r.exrules@) =~= Seq::<RecurModel>::empty());
        assert(list_models(r.exdates@) =~= Seq::<ListModel>::empty());
        assert(list_models(r.rdates@) =~= Seq::<ListModel>::empty());
        r
    }

    pub fn dtstart(&self) -> (r: &DtStart)
        ensures
            r.model() == self.model().start,
            self.wf() ==> r.wf(),
    {
        &self.dtstart
    }

    pub fn rrules(&self) -> (r: &Vec<RRule>)
        ensures
            rule_models(r@) == self.model().rrules,
    {
        &self.rrules
    }

    pub fn exrules(&self) -> (r: &Vec<RRule>)
        ensures
            rule_models(r@) == self.model().exrules,
    {
        &self.exrules
    }

    pub fn exdates(&self) -> (r: &Vec<DateList>)
        ensures
            list_models(r@) == self.model().exdates,
            self.wf() ==> lists_wf(r@),
    {
        &self.exdates
    }

    pub fn rdates(&self) -> (r: &Vec<DateList>)
        ensures
            list_models(r@) == self.model().rdates,
            self.wf() ==> lists_wf(r@),
    {
        &self.rdates
    }

    /// Whether every pattern's `UNTIL`, where given, has the anchor's value type.
    fn check_rules(&self, rules: &Vec<RRule>) -> (r: bool)
        requires
            self.dtstart.wf(),
        ensures
            r == rules_fit(self.model().start.0.value_type(), rule_models(rules@)),
    {
        rules_fit_kind(self.dtstart.derive_value_type(), rules)
    }

    /// Whether every list's values have the anchor's value type.
    fn check_lists(&self, lists: &Vec<DateList>) -> (r: bool)
        requires
            self.dtstart.wf(),
        ensures
            r == lists_fit(self.model().start.0.value_type(), list_models(lists@)),
    {
        lists_fit_kind(self.dtstart.derive_value_type(), lists)
    }

    /// Reads a rule set from text: every line must read, exactly one
    /// `DTSTART` must be present, and every component must agree with it.
    /// Lines of other names are passed over.
    pub fn from_str(s: &str) -> (r: Result<RRuleSet, String>)
        ensures
            r matches Ok(x) ==> set_of_text(s@) == Some(x.model()) && x.wf(),
            r is Err <==> set_of_text(s@) is None,
            parse_text(s@) is Err ==> r is Err && r->Err_0@ == fault_message(parse_text(s@)->Err_0),
            parse_text(s@) is Ok && assemble(parse_text(s@)->Ok_0) is None ==> r is Err
                && r->Err_0@ == cal_error(parse_text(s@)->Ok_0),
            parse_text(s@) is Ok && assemble(parse_text(s@)->Ok_0) is Some && assemble(
                parse_text(s@)->Ok_0,
            )->0.starts.len() == 0 ==> r is Err && r->Err_0@ == "DTSTART is required"@,
            parse_text(s@) is Ok && assemble(parse_text(s@)->Ok_0) is Some && assemble(
                parse_text(s@)->Ok_0,
            )->0.starts.len() > 1 ==> r is Err && r->Err_0@ == "Only one DTSTART is allowed"@,
    {
        let props = match Properties::from_str(s) {
            Ok(p) => p,
            Err(e) => return Err(e.to_string()),
        };
        let items = props.into_items();
        let cal = match Calendar::from_properties(&items) {
            Ok(c) => c,
            Err(e) => return Err(e),
        };
        let Calendar { mut dtstarts, rrules, exrules, exdates, rdates } = cal;
        if dtstarts.len() > 1 {
            return Err(string_of(&chars_of("Only one DTSTART is allowed")));
        }
        if dtstarts.len() == 0 {
            return Err(string_of(&chars_of("DTSTART is required")));
        }
        let ghost starts = dtstarts@;
        let dtstart = match dtstarts.pop() {
            Some(d) => d,
            None => return Err(string_of(&chars_of("DTSTART is required"))),
        };
        assert(starts[0] == dtstart);
        assert(starts.map_values(|d: DtStart| d.model())[0] == dtstart.model());
        let set = RRuleSet::new(dtstart);
        let set = match set.set_exdates(exdates) {
            Ok(x) => x,
            Err(e) => return Err(e),
        };
        let set = match set.set_rdates(rdates) {
            Ok(x) => x,
            Err(e) => return Err(e),
        };
        let set = match set.set_rrules(rrules) {
            Ok(x) => x,
            Err(e) => return Err(e),
        };
        set.set_exrules(exrules)
    }

    /// Adds the components of a text: a `DTSTART` in it replaces the anchor,
    /// its patterns and lists go after the present ones, and every component
    /// is checked against the anchor. On failure the error comes back with
    /// the rule set as it was.
    pub fn set_from_string(self, s: &str) -> (r: Result<RRuleSet, (String, RRuleSet)>)
        requires
            self.wf(),
        ensures
            r matches Ok(x) ==> merge_text(self.model(), s@) == Some(x.model()) && x.wf(),
            r is Err <==> merge_text(self.model(), s@) is None,
            r matches Err(p) ==> p.1.model() == self.model() && p.1.wf(),
            parse_text(s@) is Err ==> r is Err && r->Err_0.0@ == fault_message(parse_text(s@)->Err_0),
            parse_text(s@) is Ok && assemble(parse_text(s@)->Ok_0) is None ==> r is Err
                && r->Err_0.0@ == cal_error(parse_text(s@)->Ok_0),
    {
        let props = match Properties::from_str(s) {
            Ok(p) => p,
            Err(e) => return Err((e.to_string(), self)),
        };
        let items = props.into_items();
        let cal = match Calendar::from_properties(&items) {
            Ok(c) => c,
            Err(e) => return Err((e, self)),
        };
        let Calendar { mut dtstarts, rrules: mut new_rrules, exrules: mut new_exrules, exdates: mut new_exdates, rdates: mut new_rdates } = cal;
        if dtstarts.len() > 1 {
            return Err((string_of(&chars_of("Only one DTSTART is allowed")), self));
        }
        let ghost starts = dtstarts@;
        let kind = if dtstarts.len() == 1 {
            assert(starts.map_values(|d: DtStart| d.model())[0] == dtstarts@[0].model());
            dtstarts[0].derive_value_type()
        } else {
            self.dtstart.derive_value_type()
        };
        if !(rules_fit_kind(kind, &self.rrules) && rules_fit_kind(kind, &new_rrules)) {
            proof { lemma_rules_fit_append(kind, rule_models(self.rrules@), rule_models(new_rrules@)); }
            return Err((string_of(&chars_of("RRULE UNTIL value type does not match DTSTART value type")), self));
        }
        if !(rules_fit_kind(kind, &self.exrules) && rules_fit_kind(kind, &new_exrules)) {
            proof { lemma_rules_fit_append(kind, rule_models(self.exrules@), rule_models(new_exrules@)); }
            return Err((string_of(&chars_of("EXRULE UNTIL value type does not match DTSTART value type")), self));
        }
        if !(lists_fit_kind(kind, &self.exdates) && lists_fit_kind(kind, &new_exdates)) {
            proof { lemma_lists_fit_append(kind, list_models(self.exdates@), list_models(new_exdates@)); }
            return Err((string_of(&chars_of("EXDATE value type does not match DTSTART value type")), self));
        }
        if !(lists_fit_kind(kind, &self.rdates) && lists_fit_kind(kind, &new_rdates)) {
            proof { lemma_lists_fit_append(kind, list_models(self.rdates@), list_models(new_rdates@)); }
            return Err((string_of(&chars_of("RDATE value type does not match DTSTART value type")), self));
        }
        proof {
            lemma_rules_fit_append(kind, rule_models(self.rrules@), rule_models(new_rrules@));
            lemma_rules_fit_append(kind, rule_models(self.exrules@), rule_models(new_exrules@));
            lemma_lists_fit_append(kind, list_models(self.exdates@), list_models(new_exdates@));
            lemma_lists_fit_append(kind, list_models(self.rdates@), list_models(new_rdates@));
        }
        let RRuleSet { dtstart, mut rrules, mut exrules, mut exdates, mut rdates } = self;
        let dtstart = match dtstarts.pop() {
            Some(d) => {
                assert(starts[0] == d);
                d
            },
            None => dtstart,
        };
        let ghost (r0, e0, x0, d0) = (rrules@, exrules@, exdates@, rdates@);
        let ghost (r1, e1, x1, d1) = (new_rrules@, new_exrules@, new_exdates@, new_rdates@);
        rrules.append(&mut new_rrules);
        exrules.append(&mut new_exrules);
        exdates.append(&mut new_exdates);
        rdates.append(&mut new_rdates);
        assert(rule_models(rrules@) =~= rule_models(r0) + rule_models(r1));
        assert(rule_models(exrules@) =~= rule_models(e0) + rule_models(e1));
        assert(list_models(exdates@) =~= list_models(x0) + list_models(x1));
        assert(list_models(rdates@) =~= list_models(d0) + list_models(d1));
        assert(lists_wf(exdates@)) by {
            assert forall|i: int| 0 <= i < exdates@.len() implies (#[trigger] exdates@[i]).wf() by {
                if i < x0.len() {
                    assert(exdates@[i] == x0[i]);
                } else {
                    assert(exdates@[i] == x1[i - x0.len()]);
                }
            }
        }
        assert(lists_wf(rdates@)) by {
            assert forall|i: int| 0 <= i < rdates@.len() implies (#[trigger] rdates@[i]).wf() by {
                if i < d0.len() {
                    assert(rdates@[i] == d0[i]);
                } else {
                    assert(rdates@[i] == d1[i - d0.len()]);
                }
            }
        }
        Ok(RRuleSet { dtstart, rrules, exrules, exdates, rdates })
    }

    /// The text of the rule set; see `set_text`.
    pub fn to_string(&self) -> (r: String)
        ensures
            r@ == set_text(self.model()),
    {
        let m = Ghost(self.model());
        let mut parts: Vec<Vec<char>> = Vec::new();
        parts.push(self.dtstart.to_property().text_chars());
        let ghost ls: Seq<LineModel> = seq![start_line(m@.start)];
        let mut i: usize = 0;
        let ghost base = ls;
        while i < self.rrules.len()
            invariant
                i <= self.rrules@.len(),
                m@ == self.model(),
                base == seq![start_line(m@.start)],
                ls == base + m@.rrules.subrange(0, i as int).map_values(|r: RecurModel| rule_line(name_rrule(), r)),
                parts@.len() == ls.len(),
                forall|j: int| 0 <= j < ls.len() ==> #[trigger] parts@[j]@ == line_text(ls[j].0, ls[j].1, ls[j].2),
            decreases self.rrules@.len() - i,
        {
            parts.push(self.rrules[i].to_property_named(&crate::keys::rrule()).text_chars());
            proof {
                ls = ls.push(rule_line(name_rrule(), m@.rrules[i as int]));
            }
            i = i + 1;
            assert(ls =~= base + m@.rrules.subrange(0, i as int).map_values(|r: RecurModel| rule_line(name_rrule(), r)));
        }
        assert(m@.rrules.subrange(0, i as int) =~= m@.rrules);
        let ghost base = ls;
        let mut i: usize = 0;
        assert(base =~= base + m@.exrules.subrange(0, 0).map_values(|r: RecurModel| rule_line(name_exrule(), r)));
        while i < self.exrules.len()
            invariant
                i <= self.exrules@.len(),
                m@ == self.model(),
                ls == base + m@.exrules.subrange(0, i as int).map_values(|r: RecurModel| rule_line(name_exrule(), r)),
                parts@.len() == ls.len(),
                forall|j: int| 0 <= j < ls.len() ==> #[trigger] parts@[j]@ == line_text(ls[j].0, ls[j].1, ls[j].2),
            decreases self.exrules@.len() - i,
        {
            parts.push(self.exrules[i].to_property_named(&crate::keys::exrule()).text_chars());
            proof {
                ls = ls.push(rule_line(name_exrule(), m@.exrules[i as int]));
            }
            i = i + 1;
            assert(ls =~= base + m@.exrules.subrange(0, i as int).map_values(|r: RecurModel| rule_line(name_exrule(), r)));
        }
        assert(m@.exrules.subrange(0, i as int) =~= m@.exrules);
        let ghost base = ls;
        let mut i: usize = 0;
        assert(base =~= base + list_lines(name_exdate(), m@.exdates.subrange(0, 0)));
        while i < self.exdates.len()
            invariant
                i <= self.exdates@.len(),
                m@ == self.model(),
                ls == base + list_lines(name_exdate(), m@.exdates.subrange(0, i as int)),
                parts@.len() == ls.len(),
                forall|j: int| 0 <= j < ls.len() ==> #[trigger] parts@[j]@ == line_text(ls[j].0, ls[j].1, ls[j].2),
            decreases self.exdates@.len() - i,
        {
            assert(m@.exdates.subrange(0, i + 1).drop_last() =~= m@.exdates.subrange(0, i as int));
            if self.exdates[i].values().len() > 0 {
                parts.push(self.exdates[i].to_property(&crate::keys::exdate()).text_chars());
                proof {
                    ls = ls.push(list_line(name_exdate(), m@.exdates[i as int]));
                }
            }
            i = i + 1;
            assert(ls =~= base + list_lines(name_exdate(), m@.exdates.subrange(0, i as int)));
        }
        assert(m@.exdates.subrange(0, i as int) =~= m@.exdates);
        let ghost base = ls;
        let mut i: usize = 0;
        assert(base =~= base + list_lines(name_rdate(), m@.rdates.subrange(0, 0)));
        while i < self.rdates.len()
            invariant
                i <= self.rdates@.len(),
                m@ == self.model(),
                ls == base + list_lines(name_rdate(), m@.rdates.subrange(0, i as int)),
                parts@.len() == ls.len(),
                forall|j: int| 0 <= j < ls.len() ==> #[trigger] parts@[j]@ == line_text(ls[j].0, ls[j].1, ls[j].2),
            decreases self.rdates@.len() - i,
        {
            assert(m@.rdates.subrange(0, i + 1).drop_last() =~= m@.rdates.subrange(0, i as int));
            if self.rdates[i].values().len() > 0 {
                parts.push(self.rdates[i].to_property(&crate::keys::rdate()).text_chars());
                proof {
                    ls = ls.push(list_line(name_rdate(), m@.rdates[i as int]));
                }
            }
            i = i + 1;
            assert(ls =~= base + list_lines(name_rdate(), m@.rdates.subrange(0, i as int)));
        }
        assert(m@.rdates.subrange(0, i as int) =~= m@.rdates);
        assert(ls =~= set_lines(m@));
        assert(parts@.map_values(|t: Vec<char>| t@) =~= set_lines(m@).map_values(|l: LineModel| line_text(l.0, l.1, l.2)));
        string_of(&crate::text::join_chars(&parts, '\n'))
    }

    /// Appends one component; it must agree with the anchor's value type.
    pub fn add_rrule(self, item: RRule) -> (r: Result<RRuleSet, String>)
        requires
            self.wf(),
        ensures
            r is Ok <==> rule_fits(self.model().start.0.value_type(), item.model()),
            r matches Ok(x) ==> x.model() == (SetModel { rrules: self.model().rrules.push(item.model()), ..self.model() }) && x.wf(),
    {
        let kind = self.dtstart.derive_value_type();
        let fits = match item.until() {
            Some(u) => u.derive_value_type() == kind,
            None => true,
        };
        if !fits {
            return Err(string_of(&chars_of("RRULE UNTIL value type does not match DTSTART value type")));
        }
        let mut rrules = self.rrules;
        let ghost before = rrules@;
        rrules.push(item);
        let r = RRuleSet { rrules, ..self };
        assert(rule_models(r.rrules@) =~= rule_models(before).push(item.model()));
        Ok(r)
    }

    /// Appends one component; it must agree with the anchor's value type.
    pub fn add_exrule(self, item: RRule) -> (r: Result<RRuleSet, String>)
        requires
            self.wf(),
        ensures
            r is Ok <==> rule_fits(self.model().start.0.value_type(), item.model()),
            r matches Ok(x) ==> x.model() == (SetModel { exrules: self.model().exrules.push(item.model()), ..self.model() }) && x.wf(),
    {
        let kind = self.dtstart.derive_value_type();
        let fits = match item.until() {
            Some(u) => u.derive_value_type() == kind,
            None => true,
        };
        if !fits {
            return Err(string_of(&chars_of("EXRULE UNTIL value type does not match DTSTART value type")));
        }
        let mut exrules = self.exrules;
        let ghost before = exrules@;
        exrules.push(item);
        let r = RRuleSet { exrules, ..self };
        assert(rule_models(r.exrules@) =~= rule_models(before).push(item.model()));
        Ok(r)
    }

    /// Appends one component; it must agree with the anchor's value type.
    pub fn add_exdate(self, item: DateList) -> (r: Result<RRuleSet, String>)
        requires
            self.wf(),
            item.wf(),
        ensures
            r is Ok <==> list_fits(self.model().start.0.value_type(), item.model()),
            r matches Ok(x) ==> x.model() == (SetModel { exdates: self.model().exdates.push(item.model()), ..self.model() }) && x.wf(),
    {
        let kind = self.dtstart.derive_value_type();
        let fits = match item.derive_value_type() {
            Some(vt) => vt == kind,
            None => true,
        };
        if !fits {
            return Err(string_of(&chars_of("EXDATE value type does not match DTSTART value type")));
        }
        let mut exdates = self.exdates;
        let ghost before = exdates@;
        exdates.push(item);
        let r = RRuleSet { exdates, ..self };
        assert(list_models(r.exdates@) =~= list_models(before).push(item.model()));
        Ok(r)
    }

    /// Appends one component; it must agree with the anchor's value type.
    pub fn add_rdate(self, item: DateList) -> (r: Result<RRuleSet, String>)
        requires
            self.wf(),
            item.wf(),
        ensures
            r is Ok <==> list_fits(self.model().start.0.value_type(), item.model()),
            r matches Ok(x) ==> x.model() == (SetModel { rdates: self.model().rdates.push(item.model()), ..self.model() }) && x.wf(),
    {
        let kind = self.dtstart.derive_value_type();
        let fits = match item.derive_value_type() {
            Some(vt) => vt == kind,
            None => true,
        };
        if !fits {
            return Err(string_of(&chars_of("RDATE value type does not match DTSTART value type")));
        }
        let mut rdates = self.rdates;
        let ghost before = rdates@;
        rdates.push(item);
        let r = RRuleSet { rdates, ..self };
        assert(list_models(r.rdates@) =~= list_models(before).push(item.model()));
        Ok(r)
    }

    /// Replaces the recurrence patterns; each `UNTIL` must have the anchor's value type.
    pub fn set_rrules(self, rrules: Vec<RRule>) -> (r: Result<RRuleSet, String>)
        requires
            self.wf(),
        ensures
            r is Ok <==> rules_fit(self.model().start.0.value_type(), rule_models(rrules@)),
            r matches Ok(x) ==> x.model() == (SetModel { rrules: rule_models(rrules@), ..self.model() }) && x.wf(),
    {
        if !self.check_rules(&rrules) {
            return Err(string_of(&chars_of("RRULE UNTIL value type does not match DTSTART value type")));
        }
        Ok(RRuleSet { rrules, ..self })
    }

    /// Replaces the exclusion patterns; each `UNTIL` must have the anchor's value type.
    pub fn set_exrules(self, exrules: Vec<RRule>) -> (r: Result<RRuleSet, String>)
        requires
            self.wf(),
        ensures
            r is Ok <==> rules_fit(self.model().start.0.value_type(), rule_models(exrules@)),
            r matches Ok(x) ==> x.model() == (SetModel { exrules: rule_models(exrules@), ..self.model() }) && x.wf(),
    {
        if !self.check_rules(&exrules) {
            return Err(string_of(&chars_of("EXRULE UNTIL value type does not match DTSTART value type")));
        }
        Ok(RRuleSet { exrules, ..self })
    }

    /// Replaces the exclusion lists; their values must have the anchor's value type.
    pub fn set_exdates(self, exdates: Vec<DateList>) -> (r: Result<RRuleSet, String>)
        requires
            self.wf(),
            lists_wf(exdates@),
        ensures
            r is Ok <==> lists_fit(self.model().start.0.value_type(), list_models(exdates@)),
            r matches Ok(x) ==> x.model() == (SetModel { exdates: list_models(exdates@), ..self.model() }) && x.wf(),
    {
        if !self.check_lists(&exdates) {
            return Err(string_of(&chars_of("EXDATE value type does not match DTSTART value type")));
        }
        Ok(RRuleSet { exdates, ..self })
    }

    /// Replaces the inclusion lists; their values must have the anchor's value type.
    pub fn set_rdates(self, rdates: Vec<DateList>) -> (r: Result<RRuleSet, String>)
        requires
            self.wf(),
            lists_wf(rdates@),
        ensures
            r is Ok <==> lists_fit(self.model().start.0.value_type(), list_models(rdates@)),
            r matches Ok(x) ==> x.model() == (SetModel { rdates: list_models(rdates@), ..self.model() }) && x.wf(),
    {
        if !self.check_lists(&rdates) {
            return Err(string_of(&chars_of("RDATE value type does not match DTSTART value type")));
        }
        Ok(RRuleSet { rdates, ..self })
    }
}

/// Reading what a rule set writes gives back what the text states of it:
/// the same patterns and non-empty lists, the anchor's value and value type,
/// and its zone unless that is `UTC`. The values must fit the text form and
/// the zone names be plain; an empty list writes no line.
pub proof fn lemma_round_trip(r: &RRuleSet)
    requires
        r.wf(),
        crate::laws::writable_set(r.model()),
    ensures
        set_of_text(set_text(r.model())) == Some(crate::laws::written_set(r.model())),
{
    crate::laws::lemma_set_round_trip(r.model());
}

/// Writing is repeatable: the text depends on the contents alone, so two
/// writings of one rule set agree byte for byte, and so does writing again
/// what was read back from the text.
pub proof fn lemma_write_repeatable(r: &RRuleSet, s: &RRuleSet)
    requires
        r.wf(),
        crate::laws::writable_set(r.model()),
        set_of_text(set_text(r.model())) == Some(s.model()),
    ensures
        set_text(s.model()) == set_text(r.model()),
{
    crate::laws::lemma_set_round_trip(r.model());
    crate::laws::lemma_written_text(r.model());
}

/// Whether every pattern's `UNTIL`, where given, has the value type `kind`.
fn rules_fit_kind(kind: ValueType, rules: &Vec<RRule>) -> (r: bool)
    ensures
        r == rules_fit(kind, rule_models(rules@)),
{
    let mut i: usize = 0;
    while i < rules.len()
        invariant
            i <= rules@.len(),
            forall|k: int| 0 <= k < i ==> rule_fits(kind, #[trigger] rule_models(rules@)[k]),
        decreases rules@.len() - i,
    {
        match rules[i].until() {
            Some(u) => {
                if u.derive_value_type() != kind {
                    assert(!rule_fits(kind, rule_models(rules@)[i as int]));
                    return false;
                }
            },
            None => {},
        }
        i = i + 1;
    }
    true
}

/// Whether every list's values have the value type `kind`.
fn lists_fit_kind(kind: ValueType, lists: &Vec<DateList>) -> (r: bool)
    ensures
        r == lists_fit(kind, list_models(lists@)),
{
    let mut i: usize = 0;
    while i < lists.len()
        invariant
            i <= lists@.len(),
            forall|k: int| 0 <= k < i ==> list_fits(kind, #[trigger] list_models(lists@)[k]),
        decreases lists@.len() - i,
    {
        match lists[i].derive_value_type() {
            Some(vt) => {
                if vt != kind {
                    assert(!list_fits(kind, list_models(lists@)[i as int]));
                    return false;
                }
            },
            None => {},
        }
        i = i + 1;
    }
    true
}

proof fn lemma_rules_fit_append(k: ValueType, a: Seq<RecurModel>, b: Seq<RecurModel>)
    ensures
        rules_fit(k, a + b) <==> rules_fit(k, a) && rules_fit(k, b),
{
    if rules_fit(k, a + b) {
        assert forall|i: int| 0 <= i < a.len() implies rule_fits(k, #[trigger] a[i]) by {
            assert((a + b)[i] == a[i]);
        }
        assert forall|i: int| 0 <= i < b.len() implies rule_fits(k, #[trigger] b[i]) by {
            assert((a + b)[a.len() + i] == b[i]);
        }
    }
    if rules_fit(k, a) && rules_fit(k, b) {
        assert forall|i: int| 0 <= i < (a + b).len() implies rule_fits(k, #[trigger] (a + b)[i]) by {
            if i < a.len() {
                assert((a + b)[i] == a[i]);
            } else {
                assert((a + b)[i] == b[i - a.len()]);
            }
        }
    }
}

proof fn lemma_lists_fit_append(k: ValueType, a: Seq<ListModel>, b: Seq<ListModel>)
    ensures
        lists_fit(k, a + b) <==> lists_fit(k, a) && lists_fit(k, b),
{
    if lists_fit(k, a + b) {
        assert forall|i: int| 0 <= i < a.len() implies list_fits(k, #[trigger] a[i]) by {
            assert((a + b)[i] == a[i]);
        }
        assert forall|i: int| 0 <= i < b.len() implies list_fits(k, #[trigger] b[i]) by {
            assert((a + b)[a.len() + i] == b[i]);
        }
    }
    if lists_fit(k, a) && lists_fit(k, b) {
        assert forall|i: int| 0 <= i < (a + b).len() implies list_fits(k, #[trigger] (a + b)[i]) by {
            if i < a.len() {
                assert((a + b)[i] == a[i]);
            } else {
                assert((a + b)[i] == b[i - a.len()]);
            }
        }
    }
}

/// The first line that cannot be filed is the same in a prefix and in the whole.
proof fn lemma_cal_error(s: Seq<LineModel>, j: int)
    requires
        0 <= j <= s.len(),
        assemble(s.subrange(0, j)) is None,
    ensures
        cal_error(s) == cal_error(s.subrange(0, j)),
    decreases s.len() - j,
{
    if j < s.len() {
        assert(s.drop_last().subrange(0, j) =~= s.subrange(0, j));
        lemma_cal_error(s.drop_last(), j);
        lemma_assemble_fail(s.drop_last(), j);
    } else {
        assert(s.subrange(0, j) =~= s);
    }
}

/// A line that does not read in a prefix spoils the whole text.
proof fn lemma_assemble_fail(s: Seq<LineModel>, j: int)
    requires
        0 <= j <= s.len(),
        assemble(s.subrange(0, j)) is None,
    ensures
        assemble(s) is None,
    decreases s.len() - j,
{
    if j < s.len() {
        assert(s.drop_last().subrange(0, j) =~= s.subrange(0, j));
        lemma_assemble_fail(s.drop_last(), j);
    } else {
        assert(s.subrange(0, j) =~= s);
    }
}

} // verus!
