//! `/attach`: documents that accompany the next question.

use vstd::prelude::*;

use crate::number;
use crate::text;

verus! {

/// A document that accompanies the next question.
#[derive(Debug)]
pub struct Attachment {
    pub name: String,
    pub content: String,
}

/// The mathematical value of an [`Attachment`].
pub struct AttachmentView {
    pub name: Seq<char>,
    pub content: Seq<char>,
}

impl View for Attachment {
    type V = AttachmentView;

    open spec fn view(&self) -> AttachmentView {
        AttachmentView { name: self.name@, content: self.content@ }
    }
}

/// The documents that accompany the next question.
#[derive(Debug)]
pub struct Attachments {
    pub docs: Vec<Attachment>,
}

/// The values of a list of attachments.
pub open spec fn attachment_views(v: Seq<Attachment>) -> Seq<AttachmentView> {
    Seq::new(v.len(), |i: int| v[i]@)
}

impl View for Attachments {
    type V = Seq<AttachmentView>;

    open spec fn view(&self) -> Seq<AttachmentView> {
        attachment_views(self.docs@)
    }
}

/// What an `/attach` command leads to.
#[derive(Debug)]
pub enum AttachStep {
    /// These lines are shown.
    Say(Vec<String>),
    /// The file is read, to be attached.
    Open(String),
}

/// Whether `r` shows exactly these lines.
pub open spec fn says(r: AttachStep, lines: Seq<Seq<char>>) -> bool {
    r matches AttachStep::Say(v) && text::texts(v@) =~= lines
}

/// One line of the list of attachments; lengths are counted in bytes.
pub open spec fn attachment_line(d: AttachmentView) -> Seq<char> {
    "  "@ + d.name + " ("@ + number::decimal(text::byte_count(d.content)) + " chars)"@
}

/// The list of attachments.
pub open spec fn list_lines(docs: Seq<AttachmentView>) -> Seq<Seq<char>> {
    if docs.len() == 0 {
        seq!["No files attached. Usage: /attach <file>  |  /attach clear"@]
    } else {
        seq!["Attached files:"@] + Seq::new(docs.len(), |i: int| attachment_line(docs[i])) + seq![
            "Use /attach clear to remove all attachments."@,
        ]
    }
}

/// What an `/attach` command leads to.
pub open spec fn attach_step(
    before: Seq<AttachmentView>,
    after: Seq<AttachmentView>,
    arg: Seq<char>,
    r: AttachStep,
) -> bool {
    if arg.len() == 0 {
        after == before && says(r, list_lines(before))
    } else if text::same_ignoring_case(arg, "clear"@) {
        after =~= Seq::<AttachmentView>::empty() && says(
            r,
            seq!["Cleared "@ + number::decimal(before.len()) + " attached document(s)."@],
        )
    } else {
        after == before && (r matches AttachStep::Open(p) && p@ == arg)
    }
}

/// `/attach` with a file opens that file, whatever is attached already, and takes
/// nothing away; `clear` in any case takes everything away, and nothing else does.
pub proof fn law_attaching_opens_the_named_file(
    before: Seq<AttachmentView>,
    after: Seq<AttachmentView>,
    arg: Seq<char>,
    r: AttachStep,
)
    requires
        attach_step(before, after, arg, r),
    ensures
        arg.len() > 0 && !text::same_ignoring_case(arg, "clear"@) ==> after == before && (
        r matches AttachStep::Open(p) && p@ == arg),
        text::same_ignoring_case(arg, "clear"@) ==> after.len() == 0 && r is Say,
        arg.len() == 0 ==> after == before && r is Say,
{
    reveal_strlit("clear");
    if text::same_ignoring_case(arg, "clear"@) {
        assert(text::ascii_lowered(arg).len() == 5);
    }
}

/// The list has a line for each attached document, in the order in which they were
/// attached, with its name and its size.
pub proof fn law_every_attachment_is_listed(docs: Seq<AttachmentView>, i: int)
    requires
        0 <= i < docs.len(),
    ensures
        list_lines(docs).len() == docs.len() + 2,
        list_lines(docs)[i + 1] == "  "@ + docs[i].name + " ("@ + number::decimal(
            text::byte_count(docs[i].content),
        ) + " chars)"@,
{
    assert(list_lines(docs)[i + 1] == attachment_line(docs[i]));
}

/// What is said when all are removed counts them, and `/attach` alone shows the
/// list.
pub proof fn law_removed_attachments_are_counted(
    before: Seq<AttachmentView>,
    after: Seq<AttachmentView>,
    arg: Seq<char>,
    r: AttachStep,
)
    requires
        attach_step(before, after, arg, r),
    ensures
        text::same_ignoring_case(arg, "clear"@) ==> after.len() == 0 && (r matches AttachStep::Say(v)
            && v@.len() == 1 && v@[0]@ == "Cleared "@ + number::decimal(before.len())
            + " attached document(s)."@),
        arg.len() == 0 ==> after == before && (r matches AttachStep::Say(v) && text::texts(v@)
            == list_lines(before)),
{
    reveal_strlit("clear");
    assert(text::ascii_lowered("clear"@).len() == 5);
    assert(text::ascii_lowered(arg).len() == arg.len());
    if let AttachStep::Say(v) = r {
        assert(text::texts(v@).len() == v@.len());
        if v@.len() == 1 {
            assert(text::texts(v@)[0] == v@[0]@);
        }
    }
}

/// The documents that accompany a question, and the ones that are left for
/// the question after it.
pub open spec fn taken(docs: Seq<AttachmentView>) -> (Seq<AttachmentView>, Seq<AttachmentView>) {
    (docs, Seq::empty())
}

/// What is said of a document that was attached.
pub open spec fn attached_notice(
    docs: Seq<AttachmentView>,
    name: Seq<char>,
    content: Seq<char>,
) -> Seq<char> {
    "Attached: "@ + name + " ("@ + number::decimal(text::byte_count(content)) + " chars, "@
        + number::decimal(docs.len() + 1) + " total attached)"@
}

/// What is said of a document that was attached counts it among the others.
pub proof fn law_a_new_attachment_is_counted(
    docs: Seq<AttachmentView>,
    name: Seq<char>,
    content: Seq<char>,
)
    ensures
        attached_notice(docs, name, content) == "Attached: "@ + name + " ("@ + number::decimal(
            text::byte_count(content),
        ) + " chars, "@ + number::decimal(with_attached(docs, name, content).len())
            + " total attached)"@,
{
}

/// The documents with one more behind them.
pub open spec fn with_attached(
    docs: Seq<AttachmentView>,
    name: Seq<char>,
    content: Seq<char>,
) -> Seq<AttachmentView> {
    docs.push(AttachmentView { name, content })
}

/// A document that is attached accompanies the next question, with its name and
/// its whole content, behind those that were attached before, which all stay.
pub proof fn law_attached_documents_accompany_the_question(
    docs: Seq<AttachmentView>,
    name: Seq<char>,
    content: Seq<char>,
    i: int,
)
    ensures
        ({
            let taken_with = taken(with_attached(docs, name, content)).0;
            &&& taken_with.len() == docs.len() + 1
            &&& 0 <= i < docs.len() ==> taken_with[i] == docs[i]
            &&& taken_with[docs.len() as int].name == name
            &&& taken_with[docs.len() as int].content == content
        }),
{
}

/// Attachments serve one question: the next one has none, unless something is
/// attached in between.
pub proof fn law_attachments_serve_one_question(docs: Seq<AttachmentView>)
    ensures
        taken(docs).0 == docs,
        taken(taken(docs).1).0.len() == 0,
{
}

impl Attachments {
    /// No attachments.
    pub fn new() -> (r: Attachments)
        ensures
            r@ == Seq::<AttachmentView>::empty(),
    {
        let r = Attachments { docs: Vec::new() };
        assert(r@ =~= Seq::<AttachmentView>::empty());
        r
    }

    /// The list of attachments.
    fn list(&self) -> (r: Vec<String>)
        ensures
            text::texts(r@) =~= list_lines(self@),
    {
        let mut out: Vec<String> = Vec::new();
        let ghost want = list_lines(self@);
        if self.docs.len() == 0 {
            out.push("No files attached. Usage: /attach <file>  |  /attach clear".to_string());
            return out;
        }
        out.push("Attached files:".to_string());
        let mut i: usize = 0;
        while i < self.docs.len()
            invariant
                i <= self.docs@.len(),
                self.docs@.len() > 0,
                want == list_lines(self@),
                out@.len() == i + 1,
                forall|j: int| 0 <= j < out@.len() ==> (#[trigger] out@[j])@ == want[j],
            decreases self.docs@.len() - i,
        {
            let d = &self.docs[i];
            let mut m = "  ".to_string();
            m.append(d.name.as_str());
            m.append(" (");
            let n = number::show_usize(text::byte_len(d.content.as_str()));
            m.append(n.as_str());
            m.append(" chars)");
            assert(want[i + 1] == attachment_line(self@[i as int]));
            out.push(m);
            i += 1;
        }
        out.push("Use /attach clear to remove all attachments.".to_string());
        out
    }

    /// `/attach [<file> | clear]`.
    pub fn cmd_attach(&mut self, arg: &str) -> (r: AttachStep)
        ensures
            attach_step(old(self)@, final(self)@, arg@, r),
    {
        if arg.is_empty() {
            return AttachStep::Say(self.list());
        }
        if text::eq_ignore_ascii_case(arg, "clear") {
            let mut m = "Cleared ".to_string();
            let n = number::show_usize(self.docs.len());
            m.append(n.as_str());
            m.append(" attached document(s).");
            self.docs.clear();
            return AttachStep::Say(vec![m]);
        }
        AttachStep::Open(arg.to_owned())
    }

    /// Attaches a document that was read; the line says so.
    pub fn attach(&mut self, name: &str, content: &str) -> (r: String)
        ensures
            final(self)@ == with_attached(old(self)@, name@, content@),
            r@ == attached_notice(old(self)@, name@, content@),
    {
        let ghost before = self.docs@;
        self.docs.push(Attachment { name: name.to_owned(), content: content.to_owned() });
        assert(self@ =~= attachment_views(before).push(
            AttachmentView { name: name@, content: content@ },
        ));
        let mut m = "Attached: ".to_string();
        m.append(name);
        m.append(" (");
        let n = number::show_usize(text::byte_len(content));
        m.append(n.as_str());
        m.append(" chars, ");
        let total = number::show_usize(self.docs.len());
        m.append(total.as_str());
        m.append(" total attached)");
        m
    }

    /// Hands the attachments over to a question; none are left.
    pub fn take(&mut self) -> (r: Vec<Attachment>)
        ensures
            (attachment_views(r@), final(self)@) == taken(old(self)@),
    {
        let mut docs: Vec<Attachment> = Vec::new();
        std::mem::swap(&mut docs, &mut self.docs);
        assert(self@ =~= Seq::<AttachmentView>::empty());
        docs
    }
}

} // verus!
