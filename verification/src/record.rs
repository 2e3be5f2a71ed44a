use vstd::prelude::*;
use vstd::string::StringExecFns;
use crate::language::Language;
use crate::number::{decimal, format_u64};
use crate::platform::Platform;
use crate::stats::Stats;

verus! {

/// What a catalog entry holds, as mathematical values.
pub struct CrackmeView {
    pub name: Seq<char>,
    pub author: Seq<char>,
    pub language: Language,
    pub date: Seq<char>,
    pub platform: Platform,
    pub quality: Seq<char>,
    pub difficulty: Seq<char>,
    pub id: Seq<char>,
    pub solutions: u64,
    pub comments: u64,
}

/// The fields that every view of a catalog entry has.
#[derive(Debug, PartialEq, Eq)]
pub struct BaseCrackme {
    name: String,
    author: String,
    language: Language,
    date: String,
    platform: Platform,
    stats: Stats,
    id: String,
    solutions: u64,
    comments: u64,
}

impl Clone for BaseCrackme {
    fn clone(&self) -> (r: BaseCrackme)
        ensures
            r@ == self@,
    {
        BaseCrackme {
            name: self.name.clone(),
            author: self.author.clone(),
            language: self.language,
            date: self.date.clone(),
            platform: self.platform,
            stats: self.stats.clone(),
            id: self.id.clone(),
            solutions: self.solutions,
            comments: self.comments,
        }
    }
}

impl View for BaseCrackme {
    type V = CrackmeView;

    closed spec fn view(&self) -> CrackmeView {
        CrackmeView {
            name: self.name@,
            author: self.author@,
            language: self.language,
            date: self.date@,
            platform: self.platform,
            quality: self.stats.quality@,
            difficulty: self.stats.difficulty@,
            id: self.id@,
            solutions: self.solutions,
            comments: self.comments,
        }
    }
}

/// The text by which an entry is searched: each of its fields as text, one
/// after the other.
pub open spec fn fields_text(v: CrackmeView) -> Seq<char> {
    v.name + v.author + v.language.name_text() + v.date + v.platform.name_text() + v.quality
        + v.difficulty + v.id + decimal(v.solutions as nat) + decimal(v.comments as nat)
}

/// The lines that show an entry, one field to a line.
pub open spec fn fields_report(v: CrackmeView) -> Seq<char> {
    "Name: "@ + v.name + "\n"@ + "Author: "@ + v.author + "\n"@ + "Language: "@
        + v.language.name_text() + "\n"@ + "Upload: "@ + v.date + "\n"@ + "Platform: "@
        + v.platform.name_text() + "\n"@ + "Quality: "@ + v.quality + "\n"@ + "Difficulty: "@
        + v.difficulty + "\n"@ + "Solutions: "@ + decimal(v.solutions as nat) + "\n"@
        + "Comments: "@ + decimal(v.comments as nat) + "\n"@
}

impl BaseCrackme {
    /// An entry of the given fields.
    pub fn new(
        name: String,
        author: String,
        language: Language,
        date: String,
        platform: Platform,
        stats: Stats,
        id: String,
        solutions: u64,
        comments: u64,
    ) -> (r: BaseCrackme)
        ensures
            r@ == (CrackmeView {
                name: name@,
                author: author@,
                language,
                date: date@,
                platform,
                quality: stats.quality@,
                difficulty: stats.difficulty@,
                id: id@,
                solutions,
                comments,
            }),
    {
        BaseCrackme { name, author, language, date, platform, stats, id, solutions, comments }
    }

    pub fn name(&self) -> (r: &str)
        ensures
            r@ == self@.name,
    {
        self.name.as_str()
    }

    pub fn author(&self) -> (r: &str)
        ensures
            r@ == self@.author,
    {
        self.author.as_str()
    }

    pub fn language(&self) -> (r: Language)
        ensures
            r == self@.language,
    {
        self.language
    }

    pub fn date(&self) -> (r: &str)
        ensures
            r@ == self@.date,
    {
        self.date.as_str()
    }

    pub fn platform(&self) -> (r: Platform)
        ensures
            r == self@.platform,
    {
        self.platform
    }

    pub fn stats(&self) -> (r: &Stats)
        ensures
            r.quality@ == self@.quality,
            r.difficulty@ == self@.difficulty,
    {
        &self.stats
    }

    pub fn id(&self) -> (r: &str)
        ensures
            r@ == self@.id,
    {
        self.id.as_str()
    }

    pub fn solutions(&self) -> (r: u64)
        ensures
            r == self@.solutions,
    {
        self.solutions
    }

    pub fn comments(&self) -> (r: u64)
        ensures
            r == self@.comments,
    {
        self.comments
    }

    /// The text by which the entry is searched.
    pub fn to_search_string(&self) -> (r: String)
        ensures
            r@ == fields_text(self@),
    {
        let mut out = String::from_str(self.name.as_str());
        out.append(self.author.as_str());
        out.append(self.language.name());
        out.append(self.date.as_str());
        out.append(self.platform.name());
        out.append(self.stats.quality.as_str());
        out.append(self.stats.difficulty.as_str());
        out.append(self.id.as_str());
        out.append(format_u64(self.solutions).as_str());
        out.append(format_u64(self.comments).as_str());
        out
    }

    /// The lines that show the entry.
    pub fn to_string(&self) -> (r: String)
        ensures
            r@ == fields_report(self@),
    {
        let mut out = String::from_str("Name: ");
        out.append(self.name.as_str());
        out.append("\n");
        out.append("Author: ");
        out.append(self.author.as_str());
        out.append("\n");
        out.append("Language: ");
        out.append(self.language.name());
        out.append("\n");
        out.append("Upload: ");
        out.append(self.date.as_str());
        out.append("\n");
        out.append("Platform: ");
        out.append(self.platform.name());
        out.append("\n");
        out.append("Quality: ");
        out.append(self.stats.quality.as_str());
        out.append("\n");
        out.append("Difficulty: ");
        out.append(self.stats.difficulty.as_str());
        out.append("\n");
        out.append("Solutions: ");
        out.append(format_u64(self.solutions).as_str());
        out.append("\n");
        out.append("Comments: ");
        out.append(format_u64(self.comments).as_str());
        out.append("\n");
        out
    }
}

} // verus!
