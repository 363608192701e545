//! What a submitter is told of its task.
use crate::json::{
    as_string, compact, json_member, json_parsed, json_quoted, json_string, json_text,
    law_plain_text_is_quoted_as_it_is, listed, member, object_text, parse, string_texts,
    strings_of, value_under, write_strings,
};
use crate::text::same;
use vstd::prelude::*;

verus! {

/// Why it is not known that a task was completed.
#[derive(Debug, Clone, Copy, PartialEq, Eq, Structural)]
pub enum NotProcessedReason {
    /// The pool is stopping.
    Stopped,
    /// Nothing was heard in time.
    Timeout,
}

/// The answer to a task.
#[derive(Debug, Clone, PartialEq, Eq)]
pub enum Response {
    /// An agent processed the task.
    Processed {
        /// What the agent put out.
        stdout: String,
        /// What the agent put out as errors, if anything.
        stderr: Option<String>,
    },
    /// It is not known that the task was completed: it may still run, it may have
    /// been completed, it may have failed.
    NotProcessed {
        /// Why it is not known.
        reason: NotProcessedReason,
    },
}

/// An answer's texts.
pub enum Reply {
    /// An agent processed the task.
    Processed {
        /// What the agent put out.
        stdout: Seq<char>,
        /// What the agent put out as errors, if anything.
        stderr: Option<Seq<char>>,
    },
    /// It is not known that the task was completed.
    NotProcessed {
        /// Why it is not known.
        reason: NotProcessedReason,
    },
}

impl View for Response {
    type V = Reply;

    open spec fn view(&self) -> Reply {
        match self {
            Response::Processed { stdout, stderr } => Reply::Processed {
                stdout: stdout@,
                stderr: match stderr {
                    Some(stderr) => Some(stderr@),
                    None => None,
                },
            },
            Response::NotProcessed { reason } => Reply::NotProcessed { reason: *reason },
        }
    }
}

impl Reply {
    /// The members of the answer as JSON.
    pub open spec fn members(self) -> Seq<(Seq<char>, Seq<char>)> {
        match self {
            Reply::Processed { stdout, stderr } => match stderr {
                Some(stderr) => seq![
                    ("kind"@, json_quoted("Processed"@)),
                    ("stdout"@, json_quoted(stdout)),
                    ("stderr"@, json_quoted(stderr)),
                ],
                None => seq![
                    ("kind"@, json_quoted("Processed"@)),
                    ("stdout"@, json_quoted(stdout)),
                ],
            },
            Reply::NotProcessed { reason } => seq![
                ("kind"@, json_quoted("NotProcessed"@)),
                ("reason"@, json_quoted(reason.word_text())),
            ],
        }
    }

    /// The answer as JSON.
    pub open spec fn json(self) -> Seq<char> {
        object_text(self.members())
    }
}

/// The answer that a JSON value is, if it is one. Members that an answer does not have are
/// passed over, and a null for what the agent put out as errors is as good as nothing.
pub open spec fn reply_in(value: Seq<char>) -> Option<Reply> {
    match text_under(value, "kind"@) {
        Some(kind) => if kind == "Processed"@ {
            match text_under(value, "stdout"@) {
                Some(stdout) => match json_member(value, "stderr"@) {
                    None => Some(Reply::Processed { stdout, stderr: None }),
                    Some(found) => if found == "null"@ {
                        Some(Reply::Processed { stdout, stderr: None })
                    } else {
                        match json_string(found) {
                            Some(stderr) => Some(Reply::Processed { stdout, stderr: Some(stderr) }),
                            None => None,
                        }
                    },
                },
                None => None,
            }
        } else if kind == "NotProcessed"@ {
            match text_under(value, "reason"@) {
                Some(word) => if word == "stopped"@ {
                    Some(Reply::NotProcessed { reason: NotProcessedReason::Stopped })
                } else if word == "timeout"@ {
                    Some(Reply::NotProcessed { reason: NotProcessedReason::Timeout })
                } else {
                    None
                },
                None => None,
            }
        } else {
            None
        },
        None => None,
    }
}

/// The answer that a text is, if it is one.
pub open spec fn reply_read(text: Seq<char>) -> Option<Reply> {
    match json_parsed(text) {
        Some(value) => reply_in(value),
        None => None,
    }
}

/// The kind of an answer.
#[derive(Debug, Clone, Copy, PartialEq, Eq, Structural)]
pub enum ResponseKind {
    /// An agent processed the task.
    Processed,
    /// It is not known that the task was completed.
    NotProcessed,
}

impl NotProcessedReason {
    /// The word that stands for the reason in an answer.
    pub open spec fn word_text(self) -> Seq<char> {
        match self {
            NotProcessedReason::Stopped => "stopped"@,
            NotProcessedReason::Timeout => "timeout"@,
        }
    }

    /// The word that stands for the reason in an answer.
    pub fn word(self) -> (r: &'static str)
        ensures
            r@ == self.word_text(),
    {
        match self {
            NotProcessedReason::Stopped => "stopped",
            NotProcessedReason::Timeout => "timeout",
        }
    }
}

impl Response {
    /// The answer of an agent that processed the task.
    pub fn processed(stdout: String) -> (r: Response)
        ensures
            r == (Response::Processed { stdout, stderr: None }),
    {
        Response::Processed { stdout, stderr: None }
    }

    /// The answer where nothing is known.
    pub fn not_processed(reason: NotProcessedReason) -> (r: Response)
        ensures
            r == (Response::NotProcessed { reason }),
    {
        Response::NotProcessed { reason }
    }

    /// The kind of the answer.
    pub fn kind(&self) -> (r: ResponseKind)
        ensures
            r is Processed <==> self is Processed,
            r is NotProcessed <==> self is NotProcessed,
    {
        match self {
            Response::Processed { stdout, stderr } => ResponseKind::Processed,
            Response::NotProcessed { reason } => ResponseKind::NotProcessed,
        }
    }

    /// The answer as JSON. One of a task that was processed says what the agent put out, and no
    /// reason; the other says the reason, and nothing that an agent put out. What is read from
    /// it is the answer again.
    pub fn to_json(&self) -> (r: String)
        ensures
            r@ == self@.json(),
            json_parsed(r@) matches Some(value) && match self@ {
                Reply::Processed { stdout, stderr } => {
                    &&& text_under(value, "kind"@) == Some("Processed"@)
                    &&& text_under(value, "stdout"@) == Some(stdout)
                    &&& match stderr {
                        Some(stderr) => text_under(value, "stderr"@) == Some(stderr),
                        None => json_member(value, "stderr"@) is None,
                    }
                    &&& json_member(value, "reason"@) is None
                },
                Reply::NotProcessed { reason } => {
                    &&& text_under(value, "kind"@) == Some("NotProcessed"@)
                    &&& text_under(value, "reason"@) == Some(reason.word_text())
                    &&& json_member(value, "stdout"@) is None
                    &&& json_member(value, "stderr"@) is None
                },
            },
            reply_read(r@) == Some(self@),
    {
        let mut members: Vec<(String, String)> = Vec::new();
        match self {
            Response::Processed { stdout, stderr } => {
                members.push(("kind".to_owned(), "Processed".to_owned()));
                members.push(("stdout".to_owned(), stdout.as_str().to_owned()));
                if let Some(stderr) = stderr {
                    members.push(("stderr".to_owned(), stderr.as_str().to_owned()));
                }
            },
            Response::NotProcessed { reason } => {
                members.push(("kind".to_owned(), "NotProcessed".to_owned()));
                members.push(("reason".to_owned(), reason.word().to_owned()));
            },
        }
        let ghost all = strings_of(members@);
        assert(string_texts(members@) =~= self@.members());
        proof {
            lemma_words();
            reveal_with_fuel(value_under, 4);
            if all.len() == 3 {
                assert(all.drop_last() =~= seq![all[0], all[1]]);
                assert(all.drop_last().drop_last() =~= seq![all[0]]);
            } else {
                assert(all.drop_last() =~= seq![all[0]]);
            }
            assert(seq![all[0]].drop_last() =~= Seq::empty());
            if let Reply::Processed { stdout, stderr: Some(stderr) } = self@ {
                reveal_strlit("null");
                assert(json_quoted(stderr)[0] == '"');
                assert("null"@[0] == 'n');
            }
        }
        write_strings(members)
    }

    /// The answer that a text is, if it is an object that holds one. Which of two members with one
    /// key counts is up to [`parse`].
    pub fn from_json(text: &str) -> (r: Option<Response>)
        ensures
            match r {
                Some(response) => reply_read(text@) == Some(response@),
                None => reply_read(text@) is None,
            },
    {
        let value = match parse(text) {
            Some(value) => value,
            None => {
                return None;
            },
        };
        let kind = match string_under(&value, "kind") {
            Some(kind) => kind,
            None => {
                return None;
            },
        };
        if same(&kind, "Processed") {
            let stdout = match string_under(&value, "stdout") {
                Some(stdout) => stdout,
                None => {
                    return None;
                },
            };
            match member(&value, "stderr") {
                None => Some(Response::Processed { stdout, stderr: None }),
                Some(found) => {
                    if same(&compact(&found), "null") {
                        return Some(Response::Processed { stdout, stderr: None });
                    }
                    match as_string(&found) {
                        Some(stderr) => Some(Response::Processed { stdout, stderr: Some(stderr) }),
                        None => None,
                    }
                },
            }
        } else if same(&kind, "NotProcessed") {
            match string_under(&value, "reason") {
                Some(word) => {
                    if same(&word, "stopped") {
                        Some(Response::NotProcessed { reason: NotProcessedReason::Stopped })
                    } else if same(&word, "timeout") {
                        Some(Response::NotProcessed { reason: NotProcessedReason::Timeout })
                    } else {
                        None
                    }
                },
                None => None,
            }
        } else {
            None
        }
    }
}

/// The string under a key of a JSON value, if there is one and it is a string.
fn string_under(value: &serde_json::Value, key: &str) -> (r: Option<String>)
    ensures
        match r {
            Some(text) => text_under(json_text(*value), key@) == Some(text@),
            None => text_under(json_text(*value), key@) is None,
        },
{
    match member(value, key) {
        Some(found) => as_string(&found),
        None => None,
    }
}

/// The string under a key of a JSON object, if there is one and it is a string.
pub open spec fn text_under(value: Seq<char>, key: Seq<char>) -> Option<Seq<char>> {
    match json_member(value, key) {
        Some(found) => json_string(found),
        None => None,
    }
}

proof fn lemma_words()
    ensures
        "kind"@ != "stdout"@,
        "kind"@ != "stderr"@,
        "kind"@ != "reason"@,
        "stdout"@ != "stderr"@,
        "stdout"@ != "reason"@,
        "stderr"@ != "reason"@,
        "Processed"@ != "NotProcessed"@,
        "stopped"@ != "timeout"@,
{
    reveal_strlit("kind");
    reveal_strlit("stdout");
    reveal_strlit("stderr");
    reveal_strlit("reason");
    reveal_strlit("Processed");
    reveal_strlit("NotProcessed");
    reveal_strlit("stopped");
    reveal_strlit("timeout");
    assert("stdout"@[3] == 'o' && "stderr"@[3] == 'e');
    assert("reason"@[0] == 'r' && "stdout"@[0] == 's' && "stderr"@[0] == 's');
    assert("stopped"@[0] == 's' && "timeout"@[0] == 't');
    assert("Processed"@.len() == 9 && "NotProcessed"@.len() == 12);
}

/// What is written of a task that was processed, where the agent put out no errors, and of one
/// of which nothing is known.
pub proof fn law_answers_word_for_word(stdout: Seq<char>)
    ensures
        (Reply::Processed { stdout, stderr: None }).json() == "{\"kind\":\"Processed\",\"stdout\":"@
            + json_quoted(stdout) + "}"@,
        (Reply::NotProcessed { reason: NotProcessedReason::Timeout }).json()
            == "{\"kind\":\"NotProcessed\",\"reason\":\"timeout\"}"@,
        (Reply::NotProcessed { reason: NotProcessedReason::Stopped }).json()
            == "{\"kind\":\"NotProcessed\",\"reason\":\"stopped\"}"@,
{
    reveal_strlit("{\"kind\":\"Processed\",\"stdout\":");
    reveal_strlit("{\"kind\":\"NotProcessed\",\"reason\":\"timeout\"}");
    reveal_strlit("{\"kind\":\"NotProcessed\",\"reason\":\"stopped\"}");
    reveal_strlit("}");
    reveal_strlit("kind");
    reveal_strlit("stdout");
    reveal_strlit("reason");
    reveal_strlit("Processed");
    reveal_strlit("NotProcessed");
    reveal_strlit("stopped");
    reveal_strlit("timeout");
    law_plain_text_is_quoted_as_it_is("kind"@);
    law_plain_text_is_quoted_as_it_is("stdout"@);
    law_plain_text_is_quoted_as_it_is("reason"@);
    law_plain_text_is_quoted_as_it_is("Processed"@);
    law_plain_text_is_quoted_as_it_is("NotProcessed"@);
    law_plain_text_is_quoted_as_it_is("stopped"@);
    law_plain_text_is_quoted_as_it_is("timeout"@);
    let done = Reply::Processed { stdout, stderr: None };
    lemma_two_listed(done.members());
    assert(done.json() =~= "{\"kind\":\"Processed\",\"stdout\":"@ + json_quoted(stdout) + "}"@);
    let late = Reply::NotProcessed { reason: NotProcessedReason::Timeout };
    lemma_two_listed(late.members());
    assert(late.json() =~= "{\"kind\":\"NotProcessed\",\"reason\":\"timeout\"}"@);
    let over = Reply::NotProcessed { reason: NotProcessedReason::Stopped };
    lemma_two_listed(over.members());
    assert(over.json() =~= "{\"kind\":\"NotProcessed\",\"reason\":\"stopped\"}"@);
}

proof fn lemma_two_listed(members: Seq<(Seq<char>, Seq<char>)>)
    requires
        members.len() == 2,
    ensures
        listed(members) == json_quoted(members[0].0) + seq![':'] + members[0].1 + seq![',']
            + json_quoted(members[1].0) + seq![':'] + members[1].1,
{
    let first = members.drop_last();
    assert(first =~= seq![members[0]]);
    assert(first.last() == members[0]);
    assert(listed(first) == json_quoted(members[0].0) + seq![':'] + members[0].1);
    assert(listed(members) =~= json_quoted(members[0].0) + seq![':'] + members[0].1 + seq![',']
        + json_quoted(members[1].0) + seq![':'] + members[1].1);
}

} // verus!
