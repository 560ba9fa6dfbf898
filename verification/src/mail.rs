//! Mail messages as the mail service takes them: building a message from
//! addresses, a subject and a body, or from a template and its data.

use vstd::prelude::*;

verus! {

/// The data that fills a template: names with their values. A name that is
/// entered again takes the later value.
#[derive(Debug)]
pub struct TemplateData {
    pub entries: Vec<(String, String)>,
}

/// The names and values of the first `upto` entries; a later entry
/// overrides an earlier one of the same name.
pub open spec fn entries_map(entries: Seq<(String, String)>, upto: int) -> Map<Seq<char>, Seq<char>>
    decreases upto,
{
    if upto <= 0 {
        Map::empty()
    } else {
        entries_map(entries, upto - 1).insert(entries[upto - 1].0@, entries[upto - 1].1@)
    }
}

/// The entries of one list followed by those of another stand for the
/// first map overridden by the second.
pub proof fn lemma_entries_map_concat(
    a: Seq<(String, String)>,
    b: Seq<(String, String)>,
    upto: int,
)
    requires
        0 <= upto <= b.len(),
    ensures
        entries_map(a + b, a.len() + upto) == entries_map(a, a.len() as int).union_prefer_right(
            entries_map(b, upto),
        ),
    decreases upto,
{
    if upto == 0 {
        lemma_entries_map_prefix(a, b, a.len() as int);
        assert(entries_map(a, a.len() as int).union_prefer_right(Map::empty()) =~= entries_map(
            a,
            a.len() as int,
        ));
    } else {
        lemma_entries_map_concat(a, b, upto - 1);
        assert((a + b)[a.len() + upto - 1] == b[upto - 1]);
        assert(entries_map(a, a.len() as int).union_prefer_right(
            entries_map(b, upto - 1),
        ).insert(b[upto - 1].0@, b[upto - 1].1@) =~= entries_map(
            a,
            a.len() as int,
        ).union_prefer_right(entries_map(b, upto)));
    }
}

/// The first entries of a list stand for the same map whatever follows them.
pub proof fn lemma_entries_map_prefix(a: Seq<(String, String)>, b: Seq<(String, String)>, upto: int)
    requires
        0 <= upto <= a.len(),
    ensures
        entries_map(a + b, upto) == entries_map(a, upto),
    decreases upto,
{
    if upto > 0 {
        lemma_entries_map_prefix(a, b, upto - 1);
        assert((a + b)[upto - 1] == a[upto - 1]);
    }
}

impl TemplateData {
    /// The names with their values.
    pub open spec fn view(&self) -> Map<Seq<char>, Seq<char>> {
        entries_map(self.entries@, self.entries@.len() as int)
    }

    /// No data.
    pub fn new() -> (r: TemplateData)
        ensures
            r@ == Map::<Seq<char>, Seq<char>>::empty(),
            r.entries@.len() == 0,
    {
        TemplateData { entries: Vec::new() }
    }

    /// Enters a value under a name; a value entered before under the name
    /// gives way.
    pub fn insert(&mut self, name: String, value: String)
        ensures
            final(self)@ == old(self)@.insert(name@, value@),
            final(self).entries@ == old(self).entries@.push((name, value)),
    {
        proof {
            lemma_entries_map_prefix(
                self.entries@,
                seq![(name, value)],
                self.entries@.len() as int,
            );
            assert(self.entries@ + seq![(name, value)] =~= self.entries@.push((name, value)));
        }
        self.entries.push((name, value));
    }

    /// A copy of the data.
    pub fn duplicate(&self) -> (r: TemplateData)
        ensures
            r.entries@ == self.entries@,
            r@ == self@,
    {
        let mut entries: Vec<(String, String)> = Vec::new();
        let mut i: usize = 0;
        while i < self.entries.len()
            invariant
                0 <= i <= self.entries.len(),
                entries@ == self.entries@.subrange(0, i as int),
            decreases self.entries.len() - i,
        {
            let name = self.entries[i].0.clone();
            let value = self.entries[i].1.clone();
            entries.push((name, value));
            assert(entries@ =~= self.entries@.subrange(0, i + 1));
            i += 1;
        }
        assert(self.entries@.subrange(0, self.entries@.len() as int) =~= self.entries@);
        TemplateData { entries }
    }
}

/// A mail address, with or without the name of its holder.
#[derive(Clone, Debug)]
pub struct SGEmail {
    pub email: String,
    pub name: Option<String>,
}

impl SGEmail {
    /// An empty address.
    pub fn new() -> (r: SGEmail)
        ensures
            r.email@.len() == 0,
            r.name is None,
    {
        SGEmail { email: String::new(), name: None }
    }

    /// The address without a name.
    pub fn from(email: String) -> (r: SGEmail)
        ensures
            r.email == email,
            r.name is None,
    {
        SGEmail { email, name: None }
    }
}

impl Default for SGEmail {
    fn default() -> (r: SGEmail)
        ensures
            r.email@.len() == 0,
            r.name is None,
    {
        SGEmail { email: String::new(), name: None }
    }
}

/// A body of a message with its content type.
#[derive(Clone, Debug)]
pub struct SGContent {
    pub content_type: String,
    pub value: String,
}

impl SGContent {
    /// An HTML body of one blank: the mail service takes no empty body.
    pub fn new() -> (r: SGContent)
        ensures
            r.content_type@ == "text/html"@,
            r.value@ == " "@,
    {
        SGContent { content_type: "text/html".to_owned(), value: " ".to_owned() }
    }

    /// A body of the given type and text.
    pub fn from(content_type: &String, value: &String) -> (r: SGContent)
        ensures
            r.content_type == *content_type,
            r.value == *value,
    {
        SGContent { content_type: content_type.clone(), value: value.clone() }
    }
}

impl Default for SGContent {
    fn default() -> (r: SGContent)
        ensures
            r.content_type@.len() == 0,
            r.value@.len() == 0,
    {
        SGContent { content_type: String::new(), value: String::new() }
    }
}

/// The recipients of a message, with what is particular to them.
#[derive(Debug)]
pub struct SGPersonalization {
    pub to: Vec<SGEmail>,
    pub subject: Option<String>,
    pub dynamic_template_data: Option<TemplateData>,
}

/// The template data of a personalization as a map; empty without data.
pub open spec fn spec_template_data(data: Option<TemplateData>) -> Map<Seq<char>, Seq<char>> {
    match data {
        Some(d) => d@,
        None => Map::empty(),
    }
}

impl SGPersonalization {
    /// No recipients, no subject, no data.
    pub fn new() -> (r: SGPersonalization)
        ensures
            r.to@.len() == 0,
            r.subject is None,
            r.dynamic_template_data is None,
    {
        SGPersonalization { to: Vec::new(), subject: None, dynamic_template_data: None }
    }

    /// Adds template data: what was entered before stays, but where a name
    /// is entered again the new value stands.
    pub fn add_template_data(&mut self, template_data: TemplateData)
        ensures
            final(self).dynamic_template_data is Some,
            spec_template_data(final(self).dynamic_template_data) == spec_template_data(
                old(self).dynamic_template_data,
            ).union_prefer_right(template_data@),
            final(self).to == old(self).to,
            final(self).subject == old(self).subject,
    {
        let mut added = template_data;
        let current = self.dynamic_template_data.take();
        match current {
            None => {
                assert(Map::<Seq<char>, Seq<char>>::empty().union_prefer_right(added@) =~= added@);
                self.dynamic_template_data = Some(added);
            },
            Some(data) => {
                let mut data = data;
                proof {
                    lemma_entries_map_concat(
                        data.entries@,
                        added.entries@,
                        added.entries@.len() as int,
                    );
                }
                data.entries.append(&mut added.entries);
                self.dynamic_template_data = Some(data);
            },
        }
    }
}

/// A message as the mail service takes it.
#[derive(Debug)]
pub struct SGMailMessage {
    pub from: SGEmail,
    pub subject: Option<String>,
    pub content: Vec<SGContent>,
    pub personalizations: Vec<SGPersonalization>,
    pub template_id: Option<String>,
}

/// Why no message was made.
#[derive(Clone, Copy, Debug, PartialEq, Eq, Structural)]
pub enum MailError {
    /// There is not one set of template data for each destination address.
    MismatchedTemplateData,
}

impl MailError {
    /// The failure in words.
    pub fn message(&self) -> (r: &'static str)
        ensures
            r@ == "Destination addresses mismatched with template data"@,
    {
        "Destination addresses mismatched with template data"
    }
}

/// The addresses stand for the texts, in order, none with a name.
pub open spec fn addresses_of(to: Seq<SGEmail>, addresses: Seq<String>) -> bool {
    &&& to.len() == addresses.len()
    &&& forall|i: int|
        0 <= i < to.len() ==> (#[trigger] to[i]).email == addresses[i] && to[i].name is None
}

impl SGMailMessage {
    /// A message without sender, subject, body or recipients.
    pub fn new() -> (r: SGMailMessage)
        ensures
            r.from.email@.len() == 0,
            r.from.name is None,
            r.subject is None,
            r.content@.len() == 0,
            r.personalizations@.len() == 0,
            r.template_id is None,
    {
        SGMailMessage {
            from: SGEmail::new(),
            subject: None,
            content: Vec::new(),
            personalizations: Vec::new(),
            template_id: None,
        }
    }

    /// The message that carries a subject and a body from one address to
    /// all of the others at once: one personalization with every
    /// destination, and one HTML body, a single blank where none is given.
    pub fn email(
        source_email_address: String,
        dest_email_addresses: &Vec<String>,
        title: String,
        body: Option<String>,
    ) -> (r: SGMailMessage)
        ensures
            r.from.email == source_email_address,
            r.from.name is None,
            r.subject == Some(title),
            r.template_id is None,
            r.personalizations@.len() == 1,
            addresses_of(r.personalizations@[0].to@, dest_email_addresses@),
            r.personalizations@[0].subject is None,
            r.personalizations@[0].dynamic_template_data is None,
            r.content@.len() == 1,
            r.content@[0].content_type@ == "text/html"@,
            r.content@[0].value@ == match body {
                Some(text) => text@,
                None => " "@,
            },
    {
        let mut message = SGMailMessage::new();
        message.subject = Some(title);
        message.from = SGEmail::from(source_email_address);
        let mut personalization = SGPersonalization::new();
        let mut i: usize = 0;
        while i < dest_email_addresses.len()
            invariant
                0 <= i <= dest_email_addresses.len(),
                personalization.subject is None,
                personalization.dynamic_template_data is None,
                addresses_of(personalization.to@, dest_email_addresses@.subrange(0, i as int)),
            decreases dest_email_addresses.len() - i,
        {
            personalization.to.push(SGEmail::from(dest_email_addresses[i].clone()));
            i += 1;
        }
        assert(dest_email_addresses@.subrange(0, dest_email_addresses@.len() as int)
            =~= dest_email_addresses@);
        message.personalizations.push(personalization);
        let mut content = SGContent::new();
        match body {
            Some(text) => {
                content.value = text;
            },
            None => {},
        }
        message.content.push(content);
        message
    }

    /// The message that sends a template from one address to each of the
    /// others with the data that belongs to it: one personalization per
    /// destination. There must be one set of data for each destination.
    pub fn template(
        source_email_address: String,
        dest_email_addresses: &Vec<String>,
        template_id: String,
        template_data: &Vec<TemplateData>,
    ) -> (r: Result<SGMailMessage, MailError>)
        ensures
            r is Ok <==> dest_email_addresses@.len() == template_data@.len(),
            r matches Ok(m) ==> {
                &&& m.from.email == source_email_address
                &&& m.from.name is None
                &&& m.subject is None
                &&& m.template_id == Some(template_id)
                &&& m.personalizations@.len() == dest_email_addresses@.len()
                &&& forall|i: int|
                    0 <= i < m.personalizations@.len() ==> {
                        &&& (#[trigger] m.personalizations@[i]).to@.len() == 1
                        &&& m.personalizations@[i].to@[0].email == dest_email_addresses@[i]
                        &&& m.personalizations@[i].to@[0].name is None
                        &&& m.personalizations@[i].subject is None
                        &&& m.personalizations@[i].dynamic_template_data is Some
                        &&& spec_template_data(m.personalizations@[i].dynamic_template_data)
                            == template_data@[i]@
                    }
                &&& m.content@.len() == 1
                &&& m.content@[0].content_type@ == "text/html"@
                &&& m.content@[0].value@ == " "@
            },
    {
        if dest_email_addresses.len() != template_data.len() {
            return Err(MailError::MismatchedTemplateData);
        }
        let mut message = SGMailMessage::new();
        message.from = SGEmail::from(source_email_address);
        message.template_id = Some(template_id);
        let mut i: usize = 0;
        while i < dest_email_addresses.len()
            invariant
                0 <= i <= dest_email_addresses.len(),
                dest_email_addresses@.len() == template_data@.len(),
                message.from.email == source_email_address,
                message.from.name is None,
                message.subject is None,
                message.template_id == Some(template_id),
                message.content@.len() == 0,
                message.personalizations@.len() == i,
                forall|k: int|
                    0 <= k < i ==> {
                        &&& (#[trigger] message.personalizations@[k]).to@.len() == 1
                        &&& message.personalizations@[k].to@[0].email == dest_email_addresses@[k]
                        &&& message.personalizations@[k].to@[0].name is None
                        &&& message.personalizations@[k].subject is None
                        &&& message.personalizations@[k].dynamic_template_data is Some
                        &&& spec_template_data(message.personalizations@[k].dynamic_template_data)
                            == template_data@[k]@
                    },
            decreases dest_email_addresses.len() - i,
        {
            let mut personalization = SGPersonalization::new();
            personalization.to.push(SGEmail::from(dest_email_addresses[i].clone()));
            let data = template_data[i].duplicate();
            assert(Map::<Seq<char>, Seq<char>>::empty().union_prefer_right(data@) =~= data@);
            personalization.add_template_data(data);
            message.personalizations.push(personalization);
            i += 1;
        }
        message.content.push(SGContent::new());
        Ok(message)
    }
}

} // verus!
