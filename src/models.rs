use vstd::prelude::*;

verus! {

/// Whether one model file is present, and how large it is.
#[derive(Clone, Debug)]
pub struct ModelFileStatus {
    pub name: String,
    pub path: String,
    pub exists: bool,
    pub size_bytes: Option<u64>,
    pub expected_size_bytes: u64,
}

/// Whether the voice model is installed, and what is missing.
#[derive(Clone, Debug)]
pub struct VoiceModelStatus {
    pub installed: bool,
    pub model_dir: String,
    pub files: Vec<ModelFileStatus>,
    pub server_binary_exists: bool,
    pub missing_files: Vec<String>,
}

/// A file to download for the voice model.
#[derive(Clone, Debug)]
pub struct ModelFileInfo {
    pub id: String,
    pub name: String,
    pub filename: String,
    pub url: String,
    pub size_bytes: u64,
    pub sha256: Option<String>,
}

/// Everything a voice model download needs.
#[derive(Clone, Debug)]
pub struct VoiceModelInfo {
    pub model_name: String,
    pub quantization: String,
    pub total_size_bytes: u64,
    pub model_dir: String,
    pub files: Vec<ModelFileInfo>,
}

/// Where every model file is published.
pub open spec fn repo_prefix() -> Seq<char> {
    "https://huggingface.co/lfm-audio/LFM2.5-Audio-1.5B-GGUF/resolve/main/"@
}

pub open spec fn is_model_file(f: ModelFileInfo, id: Seq<char>, name: Seq<char>, filename: Seq<char>, size: u64) -> bool {
    &&& f.id@ == id
    &&& f.name@ == name
    &&& f.filename@ == filename
    &&& f.url@ == repo_prefix() + filename
    &&& f.size_bytes == size
    &&& f.sha256 is None
}

fn model_file(id: &str, name: &str, filename: &str, size: u64) -> (r: ModelFileInfo)
    ensures
        is_model_file(r, id@, name@, filename@, size),
{
    let mut url = String::from_str("https://huggingface.co/lfm-audio/LFM2.5-Audio-1.5B-GGUF/resolve/main/");
    url.append(filename);
    ModelFileInfo {
        id: String::from_str(id),
        name: String::from_str(name),
        filename: String::from_str(filename),
        url,
        size_bytes: size,
        sha256: None,
    }
}

/// The files of the voice model (Q4_0 quantization) and the server that runs it, with
/// their download addresses and expected sizes, for a model kept in `model_dir`.
pub fn voice_model_info(model_dir: String) -> (r: VoiceModelInfo)
    ensures
        r.model_name@ == "LFM2.5-Audio-1.5B"@,
        r.quantization@ == "Q4_0"@,
        r.model_dir == model_dir,
        r.files@.len() == 5,
        is_model_file(r.files@[0], "model"@, "model"@, "LFM2.5-Audio-1.5B-Q4_0.gguf"@, 1100000000),
        is_model_file(r.files@[1], "mmproj"@, "mmproj"@, "mmproj-LFM2.5-Audio-1.5B-Q4_0.gguf"@, 350000000),
        is_model_file(r.files@[2], "vocoder"@, "vocoder"@, "vocoder-LFM2.5-Audio-1.5B-Q4_0.gguf"@, 150000000),
        is_model_file(r.files@[3], "tokenizer"@, "tokenizer"@, "tokenizer-LFM2.5-Audio-1.5B-Q4_0.gguf"@, 5000000),
        is_model_file(r.files@[4], "server"@, "Server Binary"@,
            "runners/llama-liquid-audio-macos-arm64/llama-liquid-audio-server"@, 50000000),
        r.total_size_bytes == r.files@[0].size_bytes + r.files@[1].size_bytes + r.files@[2].size_bytes
            + r.files@[3].size_bytes + r.files@[4].size_bytes,
{
    let mut files: Vec<ModelFileInfo> = Vec::new();
    files.push(model_file("model", "model", "LFM2.5-Audio-1.5B-Q4_0.gguf", 1100000000));
    files.push(model_file("mmproj", "mmproj", "mmproj-LFM2.5-Audio-1.5B-Q4_0.gguf", 350000000));
    files.push(model_file("vocoder", "vocoder", "vocoder-LFM2.5-Audio-1.5B-Q4_0.gguf", 150000000));
    files.push(model_file("tokenizer", "tokenizer", "tokenizer-LFM2.5-Audio-1.5B-Q4_0.gguf", 5000000));
    files.push(
        model_file(
            "server",
            "Server Binary",
            "runners/llama-liquid-audio-macos-arm64/llama-liquid-audio-server",
            50000000,
        ),
    );
    VoiceModelInfo {
        model_name: String::from_str("LFM2.5-Audio-1.5B"),
        quantization: String::from_str("Q4_0"),
        total_size_bytes: 1655000000,
        model_dir,
        files,
    }
}

/// The names of the files that are not present, in order.
pub open spec fn missing_of(files: Seq<ModelFileStatus>, filenames: Seq<Seq<char>>) -> Seq<Seq<char>>
    decreases files.len(),
{
    if files.len() == 0 || filenames.len() < files.len() {
        Seq::<Seq<char>>::empty()
    } else {
        let m = missing_of(files.drop_last(), filenames.drop_last());
        if files.last().exists {
            m
        } else {
            m.push(filenames[files.len() - 1])
        }
    }
}

/// The install state of the voice model from the lookup of each of its files (named by
/// `filenames`, in the same order) and of its server binary: installed when all are
/// present; the missing ones listed, the server last.
pub fn voice_model_status(
    model_dir: String,
    files: Vec<ModelFileStatus>,
    filenames: &Vec<String>,
    server_binary_exists: bool,
) -> (r: VoiceModelStatus)
    requires
        filenames@.len() == files@.len(),
    ensures
        r.model_dir == model_dir,
        r.files@ == files@,
        r.server_binary_exists == server_binary_exists,
        r.installed == (server_binary_exists && forall|i: int| 0 <= i < files@.len() ==> (#[trigger] files@[i]).exists),
        ({
            let names = filenames@.map_values(|s: String| s@);
            let missing = missing_of(files@, names);
            let expected = if server_binary_exists {
                missing
            } else {
                missing.push("runners/llama-liquid-audio-macos-arm64/llama-liquid-audio-server"@)
            };
            &&& r.missing_files@.len() == expected.len()
            &&& forall|i: int| 0 <= i < expected.len() ==> (#[trigger] r.missing_files@[i])@ == expected[i]
        }),
{
    let ghost names = filenames@.map_values(|s: String| s@);
    let mut missing: Vec<String> = Vec::new();
    let mut all_exist = true;
    let mut i: usize = 0;
    while i < files.len()
        invariant
            filenames@.len() == files@.len(),
            names == filenames@.map_values(|s: String| s@),
            i <= files@.len(),
            all_exist == forall|k: int| 0 <= k < i ==> (#[trigger] files@[k]).exists,
            missing@.len() == missing_of(files@.subrange(0, i as int), names.subrange(0, i as int)).len(),
            forall|k: int| 0 <= k < missing@.len() ==> (#[trigger] missing@[k])@ == missing_of(
                files@.subrange(0, i as int),
                names.subrange(0, i as int),
            )[k],
        decreases files@.len() - i,
    {
        assert(files@.subrange(0, i as int + 1).drop_last() =~= files@.subrange(0, i as int));
        assert(names.subrange(0, i as int + 1).drop_last() =~= names.subrange(0, i as int));
        if !files[i].exists {
            all_exist = false;
            missing.push(filenames[i].clone());
        }
        i = i + 1;
    }
    assert(files@.subrange(0, i as int) =~= files@);
    assert(names.subrange(0, i as int) =~= names);
    if !server_binary_exists {
        missing.push(String::from_str("runners/llama-liquid-audio-macos-arm64/llama-liquid-audio-server"));
    }
    VoiceModelStatus {
        installed: all_exist && server_binary_exists,
        model_dir,
        files,
        server_binary_exists,
        missing_files: missing,
    }
}

} // verus!
