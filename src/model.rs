//! Model provisioning decisions: which file and which remote source belong
//! to a model id, where the file lives, and whether a download is needed.
//! Listing the model directory and moving bytes is the caller's part.

use vstd::prelude::*;
use crate::text::{same_text, texts};

verus! {

/// The file that holds the model named `id`, for the known ids.
pub open spec fn model_file(id: Seq<char>) -> Option<Seq<char>> {
    if id == "tiny"@ {
        Some("ggml-tiny.en.bin"@)
    } else if id == "base"@ {
        Some("ggml-base.en.bin"@)
    } else if id == "large"@ {
        Some("ggml-large-v3.bin"@)
    } else {
        None
    }
}

/// The name under which the model file named `id` is written while it is
/// being downloaded: its file name with the extension replaced by `part`.
pub open spec fn model_part_file(id: Seq<char>) -> Option<Seq<char>> {
    if id == "tiny"@ {
        Some("ggml-tiny.en.part"@)
    } else if id == "base"@ {
        Some("ggml-base.en.part"@)
    } else if id == "large"@ {
        Some("ggml-large-v3.part"@)
    } else {
        None
    }
}

/// The remote address that the model named `id` is fetched from.
pub open spec fn model_source(id: Seq<char>) -> Option<Seq<char>> {
    if id == "tiny"@ {
        Some("https://huggingface.co/ggerganov/whisper.cpp/resolve/main/ggml-tiny.en.bin?download=true"@)
    } else if id == "base"@ {
        Some("https://huggingface.co/ggerganov/whisper.cpp/resolve/main/ggml-base.en.bin?download=true"@)
    } else if id == "large"@ {
        Some("https://huggingface.co/ggerganov/whisper.cpp/resolve/main/ggml-large-v3.bin?download=true"@)
    } else {
        None
    }
}

/// `file` inside directory `root`.
pub open spec fn joined_path(root: Seq<char>, file: Seq<char>) -> Seq<char> {
    if root.len() == 0 || root.last() == '/' {
        root + file
    } else {
        root + seq!['/'] + file
    }
}

/// The model named `id` is installed when its file is among `present`, the
/// names of the files in the model directory. An unknown id never is.
pub open spec fn installed(id: Seq<char>, present: Seq<Seq<char>>) -> bool {
    model_file(id) is Some && present.contains(model_file(id).unwrap())
}

/// The file name of the model named `model_id`, for the known ids.
pub fn model_filename(model_id: &str) -> (r: Option<&'static str>)
    ensures
        r is Some <==> model_file(model_id@) is Some,
        r is Some ==> model_file(model_id@) == Some(r.unwrap()@),
{
    if same_text(model_id, "tiny") {
        Some("ggml-tiny.en.bin")
    } else if same_text(model_id, "base") {
        Some("ggml-base.en.bin")
    } else if same_text(model_id, "large") {
        Some("ggml-large-v3.bin")
    } else {
        None
    }
}

fn model_part_filename(model_id: &str) -> (r: Option<&'static str>)
    ensures
        r is Some <==> model_part_file(model_id@) is Some,
        r is Some ==> model_part_file(model_id@) == Some(r.unwrap()@),
{
    if same_text(model_id, "tiny") {
        Some("ggml-tiny.en.part")
    } else if same_text(model_id, "base") {
        Some("ggml-base.en.part")
    } else if same_text(model_id, "large") {
        Some("ggml-large-v3.part")
    } else {
        None
    }
}

/// The remote address of the model named `model_id`, for the known ids.
pub fn model_url(model_id: &str) -> (r: Option<&'static str>)
    ensures
        r is Some <==> model_source(model_id@) is Some,
        r is Some ==> model_source(model_id@) == Some(r.unwrap()@),
{
    if same_text(model_id, "tiny") {
        Some("https://huggingface.co/ggerganov/whisper.cpp/resolve/main/ggml-tiny.en.bin?download=true")
    } else if same_text(model_id, "base") {
        Some("https://huggingface.co/ggerganov/whisper.cpp/resolve/main/ggml-base.en.bin?download=true")
    } else if same_text(model_id, "large") {
        Some("https://huggingface.co/ggerganov/whisper.cpp/resolve/main/ggml-large-v3.bin?download=true")
    } else {
        None
    }
}

/// Tells whether `model_id` names a known model.
pub fn is_supported_model(model_id: &str) -> (r: bool)
    ensures
        r == model_file(model_id@) is Some,
{
    model_filename(model_id).is_some()
}

/// `file` inside directory `root`.
pub fn join_path(root: &str, file: &str) -> (r: String)
    ensures
        r@ == joined_path(root@, file@),
{
    let n = root.unicode_len();
    let mut out = String::from_str(root);
    if n > 0 && root.get_char(n - 1) != '/' {
        proof {
            reveal_strlit("/");
        }
        out.append("/");
    }
    out.append(file);
    out
}

/// The path of the file of the model named `model_id` in directory `root`,
/// or the error "unknown model id".
pub fn model_path(root: &str, model_id: &str) -> (r: Result<String, String>)
    ensures
        r is Ok <==> model_file(model_id@) is Some,
        r is Ok ==> r->Ok_0@ == joined_path(root@, model_file(model_id@).unwrap()),
        r is Err ==> r->Err_0@ == "unknown model id"@,
{
    match model_filename(model_id) {
        Some(file) => Ok(join_path(root, file)),
        None => Err(String::from_str("unknown model id")),
    }
}

/// Tells whether the model named `model_id` is installed, `present` being the
/// names of the files in the model directory.
pub fn is_model_installed(model_id: &str, present: &Vec<String>) -> (r: bool)
    ensures
        r == installed(model_id@, texts(present@)),
{
    let file = match model_filename(model_id) {
        Some(f) => f,
        None => return false,
    };
    let mut i: usize = 0;
    while i < present.len()
        invariant
            0 <= i <= present@.len(),
            model_file(model_id@) == Some(file@),
            forall|k: int| 0 <= k < i ==> texts(present@)[k] != file@,
        decreases present@.len() - i,
    {
        if same_text(present[i].as_str(), file) {
            assert(texts(present@)[i as int] == file@);
            return true;
        }
        i = i + 1;
    }
    false
}

/// What providing a model takes.
pub enum DownloadPlan {
    /// The model is installed already; nothing is to be fetched. `note`
    /// reports that.
    Existing { note: String },
    /// Fetch `url` into `part_path`, then rename it to `path` once the whole
    /// body is written, so that no partial file ever stands at `path`.
    Fetch { url: String, path: String, part_path: String },
}

/// Decides how the model named `model_id` is provided in directory `root`,
/// `present` being the names of the files there. An unknown id is the error
/// "unknown model id"; an installed model is left as it is.
pub fn plan_download(root: &str, model_id: &str, present: &Vec<String>) -> (r: Result<
    DownloadPlan,
    String,
>)
    ensures
        r is Err <==> model_file(model_id@) is None,
        r is Err ==> r->Err_0@ == "unknown model id"@,
        r matches Ok(DownloadPlan::Existing { note }) ==> installed(model_id@, texts(present@))
            && note@ == "existing-"@ + model_id@,
        r matches Ok(DownloadPlan::Fetch { url, path, part_path }) ==> !installed(
            model_id@,
            texts(present@),
        ) && url@ == model_source(model_id@).unwrap() && path@ == joined_path(
            root@,
            model_file(model_id@).unwrap(),
        ) && part_path@ == joined_path(root@, model_part_file(model_id@).unwrap()),
        model_file(model_id@) is Some ==> (r matches Ok(DownloadPlan::Existing { .. })
            <==> installed(model_id@, texts(present@))),
{
    let path = match model_path(root, model_id) {
        Ok(p) => p,
        Err(e) => return Err(e),
    };
    let url = match model_url(model_id) {
        Some(u) => u,
        None => return Err(String::from_str("unknown model id")),
    };
    if is_model_installed(model_id, present) {
        return Ok(DownloadPlan::Existing { note: String::from_str("existing-").concat(model_id) });
    }
    let part = match model_part_filename(model_id) {
        Some(f) => f,
        None => return Err(String::from_str("unknown model id")),
    };
    Ok(
        DownloadPlan::Fetch {
            url: String::from_str(url),
            path,
            part_path: join_path(root, part),
        },
    )
}

/// What a completed download of the model named `model_id` reports.
pub fn downloaded_note(model_id: &str) -> (r: String)
    ensures
        r@ == "downloaded-"@ + model_id@,
{
    String::from_str("downloaded-").concat(model_id)
}

} // verus!
