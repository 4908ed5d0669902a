//! What a notification says.
//!
//! Subject and body of a notification are templates from the configuration, in
//! which `%UUID%` stands for the server's identifier and `%NAME%` for its name.

use crate::id::{format_uuid, id_text, ServerId};
use crate::registry::Registry;
use crate::sweeper::{Health, Transition};
use crate::text::{replace_all, replaced};
use vstd::prelude::*;

verus! {

/// The templates for the two kinds of notification.
pub struct Templates {
    pub down_subject: String,
    pub down_body: String,
    pub up_subject: String,
    pub up_body: String,
}

/// A notification, ready to be sent.
#[derive(Debug, PartialEq, Eq)]
pub struct Notification {
    pub subject: String,
    pub body: String,
}

/// The placeholder for the server's identifier.
pub open spec fn id_placeholder() -> Seq<char> {
    seq!['%', 'U', 'U', 'I', 'D', '%']
}

/// The placeholder for the server's name.
pub open spec fn name_placeholder() -> Seq<char> {
    seq!['%', 'N', 'A', 'M', 'E', '%']
}

/// A template with its placeholders filled in: first every `%UUID%` becomes
/// the identifier's text form, then every `%NAME%` becomes the name.
pub open spec fn rendered(template: Seq<char>, id: ServerId, name: Seq<char>) -> Seq<char> {
    replaced(replaced(template, id_placeholder(), id_text(id)), name_placeholder(), name)
}

/// The subject template for a change to `to`.
pub open spec fn subject_template(templates: Templates, to: Health) -> Seq<char> {
    match to {
        Health::Down => templates.down_subject@,
        Health::Up => templates.up_subject@,
    }
}

/// The body template for a change to `to`.
pub open spec fn body_template(templates: Templates, to: Health) -> Seq<char> {
    match to {
        Health::Down => templates.down_body@,
        Health::Up => templates.up_body@,
    }
}

/// Fills the placeholders of a template.
pub fn render(template: &str, id: ServerId, name: &str) -> (text: String)
    ensures
        text@ == rendered(template@, id, name@),
{
    proof {
        reveal_strlit("%UUID%");
        reveal_strlit("%NAME%");
        assert("%UUID%"@ =~= id_placeholder());
        assert("%NAME%"@ =~= name_placeholder());
    }
    let id_string = format_uuid(id);
    let with_id = replace_all(template, "%UUID%", id_string.as_str());
    replace_all(with_id.as_str(), "%NAME%", name)
}

/// The notification for a change of the server `id`, known as `name`, to `to`.
pub fn compose(templates: &Templates, to: Health, id: ServerId, name: &str) -> (n: Notification)
    ensures
        n.subject@ == rendered(subject_template(*templates, to), id, name@),
        n.body@ == rendered(body_template(*templates, to), id, name@),
{
    match to {
        Health::Down => Notification {
            subject: render(templates.down_subject.as_str(), id, name),
            body: render(templates.down_body.as_str(), id, name),
        },
        Health::Up => Notification {
            subject: render(templates.up_subject.as_str(), id, name),
            body: render(templates.up_body.as_str(), id, name),
        },
    }
}

/// The notification for a transition that a sweep pass reported, or `None`
/// where the registry has no name for the server.
pub fn announce(templates: &Templates, registry: &Registry, transition: Transition) -> (r: Option<
    Notification,
>)
    ensures
        r is Some == registry@.contains_key(transition.id),
        r matches Some(n) ==> {
            &&& n.subject@ == rendered(
                subject_template(*templates, transition.to),
                transition.id,
                registry@[transition.id],
            )
            &&& n.body@ == rendered(
                body_template(*templates, transition.to),
                transition.id,
                registry@[transition.id],
            )
        },
{
    match registry.name_of(transition.id) {
        Some(name) => Some(compose(templates, transition.to, transition.id, name.as_str())),
        None => None,
    }
}

} // verus!
