//! Building the chat prompt that asks a language model for a script. The
//! network call itself lives outside the library; here is the prompt text
//! that call sends.

use vstd::prelude::*;

verus! {

use vstd::string::StrSliceExecFns;
use vstd::string::StringExecFns;

/// What the requested script must be: its language (the shell it runs
/// under), the user's instruction, and any extra requirements.
pub struct ScriptSpecification {
    pub lang: String,
    pub instruction: String,
    pub requirements: Vec<String>,
}

/// A chat prompt: the system message framing the task and the user message
/// carrying the instruction.
pub struct ChatPrompt {
    pub system_message: String,
    pub user_message: String,
}

/// The system message for a given script language.
pub open spec fn system_message_of(lang: Seq<char>) -> Seq<char> {
    "You are a "@ + lang + " script generator.\nThe user gives you a description/goal for a "@
        + lang + " script and sometimes a list of extra requirements or context.\nYou respond with the "@
        + lang
        + " script.\nNote that you only respond with the script, not additional explanation, no code block etc.\nYour response must be a valid "@
        + lang + " script. So never use ''' to indicate the script start and end"@
}

/// How one requirement appears in the user message: empty requirements are
/// skipped, and one not already written as a list item gets a `- ` bullet.
pub open spec fn requirement_item(r: Seq<char>) -> Seq<char> {
    if r.len() == 0 {
        Seq::empty()
    } else if r[0] == '-' {
        seq!['\n'] + r
    } else {
        seq!['\n'] + "- "@ + r
    }
}

/// All requirements, rendered in order.
pub open spec fn requirement_items(rs: Seq<Seq<char>>) -> Seq<char>
    decreases rs.len(),
{
    if rs.len() == 0 {
        Seq::empty()
    } else {
        requirement_item(rs.first()) + requirement_items(rs.drop_first())
    }
}

/// The user message: the instruction, and, when any requirement was given,
/// a requirements section.
pub open spec fn user_message_of(instruction: Seq<char>, rs: Seq<Seq<char>>) -> Seq<char> {
    if rs.len() == 0 {
        instruction
    } else {
        instruction + "\n\nAdditional Requirements:\n"@ + requirement_items(rs)
    }
}

proof fn lemma_requirement_items_take(rs: Seq<Seq<char>>, i: int)
    requires
        0 <= i < rs.len(),
    ensures
        requirement_items(rs.take(i + 1)) == requirement_items(rs.take(i)) + requirement_item(
            rs[i],
        ),
    decreases i,
{
    if i == 0 {
        assert(rs.take(1).first() == rs[0]);
        assert(rs.take(1).drop_first() =~= Seq::<Seq<char>>::empty());
        assert(rs.take(0) =~= Seq::<Seq<char>>::empty());
        assert(requirement_item(rs[0]) + Seq::<char>::empty() =~= requirement_item(rs[0]));
        assert(Seq::<char>::empty() + requirement_item(rs[0]) =~= requirement_item(rs[0]));
    } else {
        lemma_requirement_items_take(rs.drop_first(), i - 1);
        assert(rs.take(i + 1).first() == rs[0]);
        assert(rs.take(i).first() == rs[0]);
        assert(rs.take(i + 1).drop_first() =~= rs.drop_first().take(i));
        assert(rs.take(i).drop_first() =~= rs.drop_first().take(i - 1));
        assert(rs.drop_first()[i - 1] == rs[i]);
        assert(requirement_item(rs[0]) + (requirement_items(rs.drop_first().take(i - 1))
            + requirement_item(rs[i])) =~= (requirement_item(rs[0]) + requirement_items(
            rs.drop_first().take(i - 1),
        )) + requirement_item(rs[i]));
    }
}

fn starts_with_dash(s: &str) -> (r: bool)
    ensures
        r == (s@.len() > 0 && s@[0] == '-'),
{
    if s.unicode_len() == 0 {
        false
    } else {
        s.get_char(0) == '-'
    }
}

/// Builds the prompt for a script specification: the system message frames
/// the task for the script's language, the user message carries the
/// instruction followed by the non-empty requirements as list items.
pub fn create_chat_prompt(spec: &ScriptSpecification) -> (r: ChatPrompt)
    ensures
        r.system_message@ == system_message_of(spec.lang@),
        r.user_message@ == user_message_of(spec.instruction@, spec.requirements.deep_view()),
{
    let lang = spec.lang.as_str();
    let mut system_message = String::from_str("You are a ");
    system_message.append(lang);
    system_message.append(" script generator.\nThe user gives you a description/goal for a ");
    system_message.append(lang);
    system_message.append(
        " script and sometimes a list of extra requirements or context.\nYou respond with the ",
    );
    system_message.append(lang);
    system_message.append(
        " script.\nNote that you only respond with the script, not additional explanation, no code block etc.\nYour response must be a valid ",
    );
    system_message.append(lang);
    system_message.append(" script. So never use ''' to indicate the script start and end");

    let ghost rs = spec.requirements.deep_view();
    let mut user_message = spec.instruction.clone();
    if spec.requirements.len() > 0 {
        user_message.append("\n\nAdditional Requirements:\n");
        let ghost header = user_message@;
        let mut idx: usize = 0;
        proof {
            assert(rs.take(0) =~= Seq::<Seq<char>>::empty());
            assert(header + Seq::<char>::empty() =~= header);
        }
        while idx < spec.requirements.len()
            invariant
                idx <= spec.requirements.len(),
                rs == spec.requirements.deep_view(),
                rs.len() == spec.requirements@.len(),
                user_message@ == header + requirement_items(rs.take(idx as int)),
                header == spec.instruction@ + "\n\nAdditional Requirements:\n"@,
            decreases spec.requirements.len() - idx,
        {
            let ghost um0 = user_message@;
            let req = &spec.requirements[idx];
            if !req.as_str().is_empty() {
                user_message.push('\n');
                if !starts_with_dash(req.as_str()) {
                    user_message.append("- ");
                }
                user_message.append(req.as_str());
            }
            proof {
                lemma_requirement_items_take(rs, idx as int);
                assert(rs[idx as int] == spec.requirements@[idx as int]@);
                assert(user_message@ =~= um0 + requirement_item(rs[idx as int]));
                assert(header + (requirement_items(rs.take(idx as int)) + requirement_item(
                    rs[idx as int],
                )) =~= (header + requirement_items(rs.take(idx as int))) + requirement_item(
                    rs[idx as int],
                ));
            }
            idx += 1;
        }
        proof {
            assert(rs.take(rs.len() as int) =~= rs);
        }
    }
    ChatPrompt { system_message, user_message }
}

impl ChatPrompt {
    /// The prompt as one displayable text.
    pub fn render(&self) -> (r: String)
        ensures
            r@ == "[System]\n"@ + self.system_message@ + "\n[User]\n"@ + self.user_message@,
    {
        let mut s = String::from_str("[System]\n");
        s.append(self.system_message.as_str());
        s.append("\n[User]\n");
        s.append(self.user_message.as_str());
        s
    }
}

} // verus!
