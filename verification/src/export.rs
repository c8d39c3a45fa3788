//! The pure half of the project exporter: chunk buffering and the exact
//! text of everything that is written out.  The file system work around it
//! hands these strings to disk unchanged.

use vstd::prelude::*;
use vstd::string::StringExecFns;
use crate::category::last_index_of;
use crate::text::{dec_str, dec_string, replace_all, replace_spec, str_len};

verus! {

/// How many files one exported chunk holds.
pub const CHUNK_SIZE: usize = 5;

/// The delimited text of one exported file: the document frame carries the
/// file name in both tagged slots, and the content follows the frame.
pub open spec fn piece_text(name: Seq<char>, content: Seq<char>) -> Seq<char> {
    "\n<document>\n<source>"@ + name + "</source>\n<document_content>\n"@ + name
        + "\n</document_content>\n</document>\n"@ + content
}

/// The text of a chunk: the pieces of its files from index `i` on.
pub open spec fn chunk_from(files: Seq<(String, String)>, i: int) -> Seq<char>
    decreases files.len() - i,
    when 0 <= i <= files.len()
{
    if i >= files.len() {
        Seq::empty()
    } else {
        piece_text(files[i].0@, files[i].1@) + chunk_from(files, i + 1)
    }
}

/// The text of a whole chunk.
pub open spec fn chunk_text(files: Seq<(String, String)>) -> Seq<char> {
    chunk_from(files, 0)
}

/// Renders the pieces of the buffered files into one chunk.
fn render_chunk(files: &Vec<(String, String)>) -> (r: String)
    ensures
        r@ == chunk_text(files@),
{
    let n = files.len();
    let mut out = String::new();
    let mut i: usize = 0;
    proof {
        assert(out@ =~= Seq::<char>::empty());
    }
    while i < n
        invariant
            i <= n,
            n == files@.len(),
            out@ + chunk_from(files@, i as int) == chunk_text(files@),
        decreases n - i,
    {
        let p = &files[i];
        out.append("\n<document>\n<source>");
        out.append(p.0.as_str());
        out.append("</source>\n<document_content>\n");
        out.append(p.0.as_str());
        out.append("\n</document_content>\n</document>\n");
        out.append(p.1.as_str());
        proof {
            assert(out@ + chunk_from(files@, i + 1) =~= chunk_text(files@));
        }
        i = i + 1;
    }
    proof {
        assert(chunk_from(files@, n as int) =~= Seq::<char>::empty());
        assert(out@ =~= chunk_text(files@));
    }
    out
}

/// Buffers analyzed files and groups them into fixed-size chunks; the
/// caller writes each finished chunk wherever it keeps them.
pub struct ProjectExporter {
    pub current_files: Vec<(String, String)>,
    pub chunk_counter: usize,
}

impl ProjectExporter {
    /// A fresh exporter with an empty buffer.
    pub fn new() -> (r: ProjectExporter)
        ensures
            r.current_files@.len() == 0,
            r.chunk_counter == 0,
    {
        ProjectExporter { current_files: Vec::new(), chunk_counter: 0 }
    }

    /// Adds one file to the buffer.  When the buffer reaches the chunk
    /// size, it is rendered and cleared, the chunk counter advances, and
    /// the finished chunk is handed back with its number for writing.
    pub fn add_file(&mut self, filename: String, content: String) -> (r: Option<(usize, String)>)
        requires
            old(self).chunk_counter < usize::MAX,
        ensures
            ({
                let buf = old(self).current_files@.push((filename, content));
                if buf.len() >= CHUNK_SIZE {
                    &&& r matches Some(c) && c.0 == old(self).chunk_counter && c.1@ == chunk_text(
                        buf,
                    )
                    &&& final(self).current_files@.len() == 0
                    &&& final(self).chunk_counter == old(self).chunk_counter + 1
                } else {
                    &&& r is None
                    &&& final(self).current_files@ == buf
                    &&& final(self).chunk_counter == old(self).chunk_counter
                }
            }),
    {
        self.current_files.push((filename, content));
        if self.current_files.len() >= CHUNK_SIZE {
            let chunk = render_chunk(&self.current_files);
            let number = self.chunk_counter;
            self.current_files = Vec::new();
            self.chunk_counter = number + 1;
            Some((number, chunk))
        } else {
            None
        }
    }

    /// Renders and clears whatever the buffer still holds; nothing when it
    /// is empty.  The last step before assembling the index.
    pub fn flush(&mut self) -> (r: Option<(usize, String)>)
        requires
            old(self).chunk_counter < usize::MAX,
        ensures
            ({
                if old(self).current_files@.len() > 0 {
                    &&& r matches Some(c) && c.0 == old(self).chunk_counter && c.1@ == chunk_text(
                        old(self).current_files@,
                    )
                    &&& final(self).current_files@.len() == 0
                    &&& final(self).chunk_counter == old(self).chunk_counter + 1
                } else {
                    &&& r is None
                    &&& *final(self) == *old(self)
                }
            }),
    {
        if self.current_files.len() > 0 {
            let chunk = render_chunk(&self.current_files);
            let number = self.chunk_counter;
            self.current_files = Vec::new();
            self.chunk_counter = number + 1;
            Some((number, chunk))
        } else {
            None
        }
    }
}

/// The name under which chunk number `i` is written.
pub open spec fn chunk_name_spec(i: nat) -> Seq<char> {
    "chunk_"@ + dec_str(i) + ".txt"@
}

/// Renders the file name of chunk number `i`.
pub fn chunk_file_name(i: usize) -> (r: String)
    ensures
        r@ == chunk_name_spec(i as nat),
{
    let mut out = String::from_str("chunk_");
    crate::text::append_dec(&mut out, i as u64);
    out.append(".txt");
    out
}

/// The concatenation of the chunk texts from index `i` on.
pub open spec fn chunks_concat(chunks: Seq<String>, i: int) -> Seq<char>
    decreases chunks.len() - i,
    when 0 <= i <= chunks.len()
{
    if i >= chunks.len() {
        Seq::empty()
    } else {
        chunks[i]@ + chunks_concat(chunks, i + 1)
    }
}

/// The complete-analysis index: the structured analysis under its own
/// document frame, then every chunk in order.
pub open spec fn index_spec(analysis: Seq<char>, chunks: Seq<String>) -> Seq<char> {
    "\n<document>\n<source>analysis.json</source>\n<document_content>\n"@ + analysis
        + "\n</document_content>\n</document>\n"@ + chunks_concat(chunks, 0)
}

/// Renders the single-file index from the structured analysis text and the
/// chunk texts in order.
pub fn render_index(analysis: &str, chunks: &Vec<String>) -> (r: String)
    ensures
        r@ == index_spec(analysis@, chunks@),
{
    let mut out = String::from_str("\n<document>\n<source>analysis.json</source>\n<document_content>\n");
    out.append(analysis);
    out.append("\n</document_content>\n</document>\n");
    let n = chunks.len();
    let mut i: usize = 0;
    let ghost head = out@;
    while i < n
        invariant
            i <= n,
            n == chunks@.len(),
            out@ + chunks_concat(chunks@, i as int) == head + chunks_concat(chunks@, 0),
        decreases n - i,
    {
        out.append(chunks[i].as_str());
        proof {
            assert(out@ + chunks_concat(chunks@, i + 1) =~= head + chunks_concat(chunks@, 0));
        }
        i = i + 1;
    }
    proof {
        assert(chunks_concat(chunks@, n as int) =~= Seq::<char>::empty());
        assert(out@ =~= index_spec(analysis@, chunks@));
    }
    out
}

/// The readme text written beside the export, naming the files and their
/// format.
pub fn render_readme() -> (r: String)
    ensures
        r@
            == (
        "# Repository Analysis Output\n\nThis directory contains the analysis results for the repository.\n\n## Files\n- `complete_analysis.txt`: **Single file containing everything** - Use this for easy copy-paste into AI tools\n- `analysis.json`: Complete analysis of the repository in JSON format\n- `chunks/`: Directory containing code files split into manageable chunks\n    - Each chunk contains up to 5 files\n    - Files are formatted with XML-style tags for easy parsing\n\n## Format\nFiles are wrapped in XML-style tags:\n```\n<document>\n<source>filename</source>\n<document_content>\n// actual file content\n</document_content>\n</document>\n```\n\n## Usage\nTo analyze the entire codebase:\n1. Copy the entire content of `complete_analysis.txt`\n2. Paste it into your conversation with the AI\n3. The AI will automatically recognize and parse all the files\n")@,
{
    String::from_str(
        "# Repository Analysis Output\n\nThis directory contains the analysis results for the repository.\n\n## Files\n- `complete_analysis.txt`: **Single file containing everything** - Use this for easy copy-paste into AI tools\n- `analysis.json`: Complete analysis of the repository in JSON format\n- `chunks/`: Directory containing code files split into manageable chunks\n    - Each chunk contains up to 5 files\n    - Files are formatted with XML-style tags for easy parsing\n\n## Format\nFiles are wrapped in XML-style tags:\n```\n<document>\n<source>filename</source>\n<document_content>\n// actual file content\n</document_content>\n</document>\n```\n\n## Usage\nTo analyze the entire codebase:\n1. Copy the entire content of `complete_analysis.txt`\n2. Paste it into your conversation with the AI\n3. The AI will automatically recognize and parse all the files\n",
    )
}

/// The directory name a repository exports under: the text after the
/// repository URL's last slash, any `.git` suffix text removed.
pub open spec fn repo_name_spec(url: Seq<char>) -> Seq<char> {
    replace_spec(url.subrange(last_index_of(url, '/') + 1, url.len() as int), ".git"@, ""@)
}

/// Derives the export directory name from the repository URL.
pub fn repo_name_of(repo_url: &str) -> (r: String)
    ensures
        r@ == repo_name_spec(repo_url@),
{
    proof {
        reveal_strlit(".git");
        crate::category::lemma_last_index_bounds(repo_url@, '/');
    }
    let n = str_len(repo_url);
    let k: usize = match crate::category::rfind_char(repo_url, '/') {
        Some(j) => j + 1,
        None => 0,
    };
    let tail = repo_url.substring_char(k, n);
    replace_all(tail, ".git", "")
}

} // verus!
