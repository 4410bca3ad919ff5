//! What a run tells its operator, as values: each notice says which line to
//! show, and is turned into text only when it is shown.

use vstd::prelude::*;
use crate::dialog::{is_headline, is_line, Dialog};
use crate::disp::{views, Disp, DispView, ErrorText};
use crate::fetch::Stage;
use crate::style::{Color, Level};
use crate::template::{accepts, fits, placeholders, well_formed};

verus! {

/// Something to tell the operator.
#[derive(Clone, Debug, PartialEq, Eq)]
pub enum Notice {
    /// The headline of a stage.
    Headline { template: String, values: Vec<Disp> },
    /// A line beneath a headline, announced by `dialog` with an arrow in
    /// `color`.
    Line { dialog: Dialog, color: Color, template: String, values: Vec<Disp> },
}

/// The mathematical content of a [`Notice`].
pub enum NoticeView {
    Headline { template: Seq<char>, values: Seq<DispView> },
    Line { indent: nat, color: Color, template: Seq<char>, values: Seq<DispView> },
}

impl View for Notice {
    type V = NoticeView;

    open spec fn view(&self) -> NoticeView {
        match self {
            Notice::Headline { template, values } => NoticeView::Headline {
                template: template@,
                values: views(values@),
            },
            Notice::Line { dialog, color, template, values } => NoticeView::Line {
                indent: dialog@,
                color: *color,
                template: template@,
                values: views(values@),
            },
        }
    }
}

impl NoticeView {
    /// Whether the notice's values fill its template.
    pub open spec fn fits(self) -> bool {
        match self {
            NoticeView::Headline { template, values } => accepts(template, values.len()),
            NoticeView::Line { template, values, .. } => accepts(template, values.len()),
        }
    }

    /// Whether `line` is a way of showing the notice.
    pub open spec fn is_shown_as(self, line: Seq<char>) -> bool {
        match self {
            NoticeView::Headline { template, values } => is_headline(line, template, values),
            NoticeView::Line { indent, color, template, values } => is_line(
                line,
                indent,
                color,
                template,
                values,
            ),
        }
    }
}

/// The view of an optional notice.
pub open spec fn notice_of(notice: Option<Notice>) -> Option<NoticeView> {
    match notice {
        Some(notice) => Some(notice@),
        None => None,
    }
}

impl Notice {
    /// The line that shows the notice: for a headline the message in bold,
    /// for a line the message behind indentation and arrow. There is a line
    /// exactly if the values fill the template.
    pub fn render(&self) -> (r: Option<String>)
        ensures
            r is Some <==> self@.fits(),
            r matches Some(line) ==> self@.is_shown_as(line@),
    {
        match self {
            Notice::Headline { template, values } => {
                if fits(template.as_str(), values.len()) {
                    Some(Dialog::new_str_with(template.as_str(), values.as_slice()).1)
                } else {
                    None
                }
            },
            Notice::Line { dialog, color, template, values } => {
                if fits(template.as_str(), values.len()) {
                    Some(dialog.msg_str_with(*color, template.as_str(), values.as_slice()).1)
                } else {
                    None
                }
            },
        }
    }
}

/// The package whose dependents a run looks for.
pub fn target() -> (name: &'static str)
    ensures
        name@ == "insta"@,
{
    "insta"
}

/// A line under `indent` that takes one value.
pub open spec fn line_view(indent: nat, color: Color, template: Seq<char>, value: DispView) -> NoticeView {
    NoticeView::Line { indent, color, template, values: seq![value] }
}

/// The notice of how many packages depend on the target.
pub open spec fn found_view(count: nat) -> NoticeView {
    line_view(
        1,
        Level::Info.color_spec(),
        "Found {} crates using `insta`!"@,
        DispView::Usize(count),
    )
}

/// The notice of how many packages are to be fetched.
pub open spec fn planned_view(count: nat) -> NoticeView {
    if count == 0 {
        NoticeView::Line {
            indent: 1,
            color: Level::Info.color_spec(),
            template: "No crates to download!"@,
            values: Seq::empty(),
        }
    } else {
        line_view(1, Level::Info.color_spec(), "{} crates to download"@, DispView::Usize(count))
    }
}

/// The notice that the fetch of `url` begins.
pub open spec fn fetching_view(indent: nat, url: Seq<char>) -> NoticeView {
    line_view(indent, Level::Info.color_spec(), "Downloading {}..."@, DispView::Str(url))
}

/// The notice that a package has been fetched and unpacked.
pub open spec fn downloaded_view(indent: nat, file_name: Seq<char>) -> NoticeView {
    line_view(indent, Color::Green, "Downloaded and extracted {}"@, DispView::Str(file_name))
}

/// The message for a failure at `stage`.
pub open spec fn failure_template(stage: Stage) -> Seq<char> {
    match stage {
        Stage::Network => "Error downloading file: {}, Err: {}"@,
        Stage::FileCreate => "Failed creating file: {}, Err: {}"@,
        Stage::FileWrite => "Failed downloading file: {}, Err: {}"@,
        Stage::FileOpen => "Failed opening file: {}, Err: {}"@,
        Stage::Extract => "Failed extracting file: {}, Err: {}"@,
    }
}

/// What a failure at `stage` is reported of: the address for the network,
/// the file's name for writing, and the file's path otherwise.
pub open spec fn failure_subject(
    stage: Stage,
    url: Seq<char>,
    path: Seq<char>,
    file_name: Seq<char>,
) -> DispView {
    match stage {
        Stage::Network => DispView::Str(url),
        Stage::FileWrite => DispView::Str(file_name),
        _ => DispView::Path(path),
    }
}

/// The warning that a target failed at `stage`.
pub open spec fn failed_view(
    indent: nat,
    stage: Stage,
    url: Seq<char>,
    path: Seq<char>,
    file_name: Seq<char>,
    message: Seq<char>,
    detail: Seq<char>,
) -> NoticeView {
    NoticeView::Line {
        indent,
        color: Level::Warn.color_spec(),
        template: failure_template(stage),
        values: seq![
            failure_subject(stage, url, path, file_name),
            DispView::Error { message, detail },
        ],
    }
}

/// The warning at the end of a run in which targets failed; none if none
/// did.
pub open spec fn pull_failures_view(indent: nat, failures: nat) -> Option<NoticeView> {
    if failures == 0 {
        None
    } else {
        Some(
            line_view(
                indent,
                Level::Warn.color_spec(),
                "Failed pulling {} crates"@,
                DispView::Usize(failures),
            ),
        )
    }
}

fn headline(template: &str) -> (notice: Notice)
    ensures
        notice@ == (NoticeView::Headline { template: template@, values: Seq::empty() }),
{
    let values: Vec<Disp> = Vec::new();
    proof {
        assert(views(values@) =~= Seq::<DispView>::empty());
    }
    Notice::Headline { template: String::from_str(template), values }
}

fn line(dialog: &Dialog, color: Color, template: &str, value: Disp) -> (notice: Notice)
    ensures
        notice@ == line_view(dialog@, color, template@, value@),
{
    let mut values: Vec<Disp> = Vec::new();
    values.push(value);
    proof {
        assert(views(values@) =~= seq![value@]);
    }
    Notice::Line { dialog: *dialog, color, template: String::from_str(template), values }
}

/// Says how many packages depend on the target.
pub fn found(count: usize) -> (notice: Notice)
    ensures
        notice@ == found_view(count as nat),
        notice@.fits(),
{
    proof {
        reveal_strlit("Found {} crates using `insta`!");
        reveal_with_fuel(placeholders, 32);
    }
    let dialog = Dialog::raw_with_indent(1);
    line(&dialog, Level::Info.color(), "Found {} crates using `insta`!", Disp::Usize(count))
}

/// The headline of the scan of the local inventory.
pub fn scanning() -> (notice: Notice)
    ensures
        notice@ == (NoticeView::Headline {
            template: "Scanning locally downloaded crates..."@,
            values: Seq::empty(),
        }),
        notice@.fits(),
{
    proof {
        reveal_strlit("Scanning locally downloaded crates...");
        reveal_with_fuel(placeholders, 40);
    }
    headline("Scanning locally downloaded crates...")
}

/// Says how many packages are to be fetched.
pub fn planned(count: usize) -> (notice: Notice)
    ensures
        notice@ == planned_view(count as nat),
        notice@.fits(),
{
    let dialog = Dialog::raw_with_indent(1);
    if count == 0 {
        proof {
            reveal_strlit("No crates to download!");
            reveal_with_fuel(placeholders, 24);
        }
        let values: Vec<Disp> = Vec::new();
        proof {
            assert(views(values@) =~= Seq::<DispView>::empty());
        }
        Notice::Line {
            dialog,
            color: Level::Info.color(),
            template: String::from_str("No crates to download!"),
            values,
        }
    } else {
        proof {
            reveal_strlit("{} crates to download");
            reveal_with_fuel(placeholders, 24);
        }
        line(&dialog, Level::Info.color(), "{} crates to download", Disp::Usize(count))
    }
}

/// The headline that ends a dry run.
pub fn dry_run_finished() -> (notice: Notice)
    ensures
        notice@ == (NoticeView::Headline { template: "Finished dry run!"@, values: Seq::empty() }),
        notice@.fits(),
{
    proof {
        reveal_strlit("Finished dry run!");
        reveal_with_fuel(placeholders, 20);
    }
    headline("Finished dry run!")
}

/// The headline of the fetching.
pub fn downloading() -> (notice: Notice)
    ensures
        notice@ == (NoticeView::Headline {
            template: "Downloading crates..."@,
            values: Seq::empty(),
        }),
        notice@.fits(),
{
    proof {
        reveal_strlit("Downloading crates...");
        reveal_with_fuel(placeholders, 24);
    }
    headline("Downloading crates...")
}

/// Says that the fetch of `url` begins.
pub fn fetching(dialog: &Dialog, url: &String) -> (notice: Notice)
    ensures
        notice@ == fetching_view(dialog@, url@),
        notice@.fits(),
{
    proof {
        reveal_strlit("Downloading {}...");
        reveal_with_fuel(placeholders, 20);
    }
    line(dialog, Level::Info.color(), "Downloading {}...", Disp::Str(url.clone()))
}

/// Says that a package has been fetched and unpacked.
pub fn downloaded(dialog: &Dialog, file_name: &String) -> (notice: Notice)
    ensures
        notice@ == downloaded_view(dialog@, file_name@),
        notice@.fits(),
{
    proof {
        reveal_strlit("Downloaded and extracted {}");
        reveal_with_fuel(placeholders, 30);
    }
    line(dialog, Color::Green, "Downloaded and extracted {}", Disp::Str(file_name.clone()))
}

proof fn lemma_network_template()
    ensures
        accepts("Error downloading file: {}, Err: {}"@, 2),
{
    reveal_strlit("Error downloading file: {}, Err: {}");
    assert(well_formed("Error downloading file: {}, Err: {}"@));
    assert(placeholders("Error downloading file: {}, Err: {}"@) == 2) by {
        reveal_with_fuel(placeholders, 40);
    }
}

proof fn lemma_create_template()
    ensures
        accepts("Failed creating file: {}, Err: {}"@, 2),
{
    reveal_strlit("Failed creating file: {}, Err: {}");
    assert(well_formed("Failed creating file: {}, Err: {}"@));
    assert(placeholders("Failed creating file: {}, Err: {}"@) == 2) by {
        reveal_with_fuel(placeholders, 40);
    }
}

proof fn lemma_write_template()
    ensures
        accepts("Failed downloading file: {}, Err: {}"@, 2),
{
    reveal_strlit("Failed downloading file: {}, Err: {}");
    assert(well_formed("Failed downloading file: {}, Err: {}"@));
    assert(placeholders("Failed downloading file: {}, Err: {}"@) == 2) by {
        reveal_with_fuel(placeholders, 40);
    }
}

proof fn lemma_open_template()
    ensures
        accepts("Failed opening file: {}, Err: {}"@, 2),
{
    reveal_strlit("Failed opening file: {}, Err: {}");
    assert(well_formed("Failed opening file: {}, Err: {}"@));
    assert(placeholders("Failed opening file: {}, Err: {}"@) == 2) by {
        reveal_with_fuel(placeholders, 40);
    }
}

proof fn lemma_extract_template()
    ensures
        accepts("Failed extracting file: {}, Err: {}"@, 2),
{
    reveal_strlit("Failed extracting file: {}, Err: {}");
    assert(well_formed("Failed extracting file: {}, Err: {}"@));
    assert(placeholders("Failed extracting file: {}, Err: {}"@) == 2) by {
        reveal_with_fuel(placeholders, 40);
    }
}

/// The message for a failure at `stage`.
pub fn failure_message(stage: Stage) -> (template: &'static str)
    ensures
        template@ == failure_template(stage),
        accepts(template@, 2),
{
    proof {
        lemma_network_template();
        lemma_create_template();
        lemma_write_template();
        lemma_open_template();
        lemma_extract_template();
    }
    match stage {
        Stage::Network => "Error downloading file: {}, Err: {}",
        Stage::FileCreate => "Failed creating file: {}, Err: {}",
        Stage::FileWrite => "Failed downloading file: {}, Err: {}",
        Stage::FileOpen => "Failed opening file: {}, Err: {}",
        Stage::Extract => "Failed extracting file: {}, Err: {}",
    }
}

/// Warns that a target failed at `stage`: of the address for the network,
/// of the file's name for writing, of the file's path otherwise, each with
/// the cause.
pub fn failed(
    dialog: &Dialog,
    stage: Stage,
    url: &String,
    path: &String,
    file_name: &String,
    cause: &ErrorText,
) -> (notice: Notice)
    ensures
        notice@ == failed_view(
            dialog@,
            stage,
            url@,
            path@,
            file_name@,
            cause.message@,
            cause.detail@,
        ),
        notice@.fits(),
{
    let subject = match stage {
        Stage::Network => Disp::Str(url.clone()),
        Stage::FileWrite => Disp::Str(file_name.clone()),
        Stage::FileCreate => Disp::Path(path.clone()),
        Stage::FileOpen => Disp::Path(path.clone()),
        Stage::Extract => Disp::Path(path.clone()),
    };
    let error = Disp::Error(
        ErrorText { message: cause.message.clone(), detail: cause.detail.clone() },
    );
    let mut values: Vec<Disp> = Vec::new();
    values.push(subject);
    values.push(error);
    proof {
        assert(views(values@) =~= seq![subject@, error@]);
    }
    Notice::Line {
        dialog: *dialog,
        color: Level::Warn.color(),
        template: String::from_str(failure_message(stage)),
        values,
    }
}

/// Warns at the end of a run of the targets that failed, if any did.
pub fn pull_failures(dialog: &Dialog, failures: usize) -> (notice: Option<Notice>)
    ensures
        notice_of(notice) == pull_failures_view(dialog@, failures as nat),
        notice matches Some(notice) ==> notice@.fits(),
{
    if failures == 0 {
        None
    } else {
        proof {
            reveal_strlit("Failed pulling {} crates");
            reveal_with_fuel(placeholders, 26);
        }
        Some(
            line(dialog, Level::Warn.color(), "Failed pulling {} crates", Disp::Usize(failures)),
        )
    }
}

} // verus!
