//! The upload form of the verification service and the counts it reports:
//! each form field updates the form, and the artifacts found are counted
//! as verified or not.
use vstd::prelude::*;
use crate::text::{chars_eq, chars_of, string_of, trim, trim_chars};
use crate::json::opt_view;
use crate::models::VerificationStatus;
use crate::artifact::{artifact_views, CaseArtifact, CaseArtifactView};

verus! {

/// What an upload form carries.
#[derive(Debug, Clone)]
pub struct UploadForm {
    pub file_bytes: Option<Vec<u8>>,
    pub filename: String,
    pub live: bool,
    pub token: Option<String>,
    pub attorney_name: Option<String>,
    pub bar_number: Option<String>,
    pub jurisdiction: Option<String>,
}

/// The mathematical value of an [`UploadForm`].
pub struct UploadFormView {
    pub file_bytes: Option<Seq<u8>>,
    pub filename: Seq<char>,
    pub live: bool,
    pub token: Option<Seq<char>>,
    pub attorney_name: Option<Seq<char>>,
    pub bar_number: Option<Seq<char>>,
    pub jurisdiction: Option<Seq<char>>,
}

impl View for UploadForm {
    type V = UploadFormView;

    open spec fn view(&self) -> UploadFormView {
        UploadFormView {
            file_bytes: match self.file_bytes {
                Some(b) => Some(b@),
                None => None,
            },
            filename: self.filename@,
            live: self.live,
            token: opt_view(self.token),
            attorney_name: opt_view(self.attorney_name),
            bar_number: opt_view(self.bar_number),
            jurisdiction: opt_view(self.jurisdiction),
        }
    }
}

/// Whether a form value switches live lookups on: `true` or `1`, white
/// space around it ignored.
pub open spec fn live_value(v: Seq<char>) -> bool {
    trim(v) == "true"@ || trim(v) == "1"@
}

/// A text field's value when non-empty, else the value the form had.
pub open spec fn set_if_non_empty(old: Option<Seq<char>>, v: Seq<char>) -> Option<Seq<char>> {
    if v.len() > 0 {
        Some(v)
    } else {
        old
    }
}

/// The form after a text field: `live` sets the live switch; `token`,
/// `attorney_name`, `bar_number` and `jurisdiction` are set when non-empty;
/// any other field is ignored.
pub open spec fn text_step(f: UploadFormView, name: Seq<char>, v: Seq<char>) -> UploadFormView {
    if name == "live"@ {
        UploadFormView { live: live_value(v), ..f }
    } else if name == "token"@ {
        UploadFormView { token: set_if_non_empty(f.token, v), ..f }
    } else if name == "attorney_name"@ {
        UploadFormView { attorney_name: set_if_non_empty(f.attorney_name, v), ..f }
    } else if name == "bar_number"@ {
        UploadFormView { bar_number: set_if_non_empty(f.bar_number, v), ..f }
    } else if name == "jurisdiction"@ {
        UploadFormView { jurisdiction: set_if_non_empty(f.jurisdiction, v), ..f }
    } else {
        f
    }
}

/// The form after the file field: its bytes, and its file name or
/// `document` when it has none.
pub open spec fn file_step(f: UploadFormView, file_name: Option<Seq<char>>, bytes: Seq<u8>) -> UploadFormView {
    UploadFormView {
        file_bytes: Some(bytes),
        filename: match file_name {
            Some(n) => n,
            None => "document"@,
        },
        ..f
    }
}

/// How many artifacts are verified.
pub open spec fn count_verified(s: Seq<CaseArtifactView>) -> nat
    decreases s.len(),
{
    if s.len() == 0 {
        0
    } else {
        count_verified(s.drop_last()) + if s.last().verification_status == VerificationStatus::Verified {
            1nat
        } else {
            0nat
        }
    }
}

/// An empty form: no file, the file name `document`, live lookups off, no
/// token and no attestation details.
pub fn new_upload_form() -> (r: UploadForm)
    ensures
        r@ == (UploadFormView {
            file_bytes: None,
            filename: "document"@,
            live: false,
            token: None,
            attorney_name: None,
            bar_number: None,
            jurisdiction: None,
        }),
{
    UploadForm {
        file_bytes: None,
        filename: string_of(&chars_of("document")),
        live: false,
        token: None,
        attorney_name: None,
        bar_number: None,
        jurisdiction: None,
    }
}

/// A non-empty value as a string, else the old one.
fn keep_non_empty(old: &Option<String>, v: &str) -> (r: Option<String>)
    ensures
        opt_view(r) == set_if_non_empty(opt_view(*old), v@),
{
    let t = chars_of(v);
    if t.len() > 0 {
        Some(string_of(&t))
    } else {
        crate::json::copy_opt_string(old)
    }
}

/// Takes in one text field of the form.
pub fn accept_text_field(form: &mut UploadForm, name: &str, value: &str)
    ensures
        final(form)@ == text_step(old(form)@, name@, value@),
{
    let n = chars_of(name);
    if chars_eq(&n, &chars_of("live")) {
        let t = trim_chars(&chars_of(value));
        form.live = chars_eq(&t, &chars_of("true")) || chars_eq(&t, &chars_of("1"));
    } else if chars_eq(&n, &chars_of("token")) {
        form.token = keep_non_empty(&form.token, value);
    } else if chars_eq(&n, &chars_of("attorney_name")) {
        form.attorney_name = keep_non_empty(&form.attorney_name, value);
    } else if chars_eq(&n, &chars_of("bar_number")) {
        form.bar_number = keep_non_empty(&form.bar_number, value);
    } else if chars_eq(&n, &chars_of("jurisdiction")) {
        form.jurisdiction = keep_non_empty(&form.jurisdiction, value);
    }
}

/// Takes in the file field of the form.
pub fn accept_file_field(form: &mut UploadForm, file_name: Option<String>, bytes: Vec<u8>)
    ensures
        final(form)@ == file_step(old(form)@, opt_view(file_name), bytes@),
{
    form.filename = match file_name {
        Some(n) => n,
        None => string_of(&chars_of("document")),
    };
    form.file_bytes = Some(bytes);
}

/// How many artifacts are verified and how many are not.
pub fn artifact_status_counts(artifacts: &[CaseArtifact]) -> (r: (usize, usize))
    ensures
        r.0 == count_verified(artifact_views(artifacts@)),
        r.0 + r.1 == artifacts@.len(),
{
    let ghost av = artifact_views(artifacts@);
    let mut n: usize = 0;
    for i in 0..artifacts.len()
        invariant
            av == artifact_views(artifacts@),
            n == count_verified(av.take(i as int)),
            n <= i,
    {
        assert(av.take(i + 1).drop_last() =~= av.take(i as int));
        assert(av.take(i + 1).last() == artifacts@[i as int]@);
        if artifacts[i].verification_status == VerificationStatus::Verified {
            n = n + 1;
        }
    }
    assert(av.take(artifacts@.len() as int) =~= av);
    (n, artifacts.len() - n)
}

} // verus!
