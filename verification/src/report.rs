//! The report: one row for each member, from the license of the discipline asked for.

use crate::cli::LicenseType;
use crate::error::Error;
use crate::iracing::license_views;
use crate::iracing::member_views;
use crate::iracing::License;
use crate::iracing::LicenseView;
use crate::iracing::Member;
use crate::iracing::MemberView;
use crate::text::decimal;
use crate::text::decimal_string;
use crate::text::push_signed_decimal;
use crate::text::same_text;
use crate::text::signed_decimal;
use vstd::prelude::*;
use vstd::string::*;

verus! {

/// One row of the report, as the texts that are shown.
#[derive(Debug, Clone, PartialEq, Eq)]
pub struct Summary {
    pub id: String,
    pub name: String,
    pub irating: String,
    pub license: String,
    pub sr: String,
}

/// A row as plain values.
pub struct SummaryView {
    pub id: Seq<char>,
    pub name: Seq<char>,
    pub irating: Seq<char>,
    pub license: Seq<char>,
    pub sr: Seq<char>,
}

impl View for Summary {
    type V = SummaryView;

    open spec fn view(&self) -> SummaryView {
        SummaryView {
            id: self.id@,
            name: self.name@,
            irating: self.irating@,
            license: self.license@,
            sr: self.sr@,
        }
    }
}

/// The license is for the discipline.
pub open spec fn is_for(license: LicenseView, mode: LicenseType) -> bool {
    license.category == mode.tag()
}

/// Position of the first license for the discipline, if there is one.
pub open spec fn license_position(licenses: Seq<LicenseView>, mode: LicenseType) -> Option<int>
    decreases licenses.len(),
{
    if licenses.len() == 0 {
        None
    } else if is_for(licenses.first(), mode) {
        Some(0)
    } else {
        match license_position(licenses.drop_first(), mode) {
            Some(at) => Some(at + 1),
            None => None,
        }
    }
}

/// The position that selection gives is that of a license for the
/// discipline with none for it before; it gives none only where no license
/// is for the discipline.
pub proof fn lemma_license_position(licenses: Seq<LicenseView>, mode: LicenseType)
    ensures
        match license_position(licenses, mode) {
            Some(at) => {
                &&& 0 <= at < licenses.len()
                &&& is_for(licenses[at], mode)
                &&& forall|i: int| 0 <= i < at ==> !is_for(#[trigger] licenses[i], mode)
            },
            None => forall|i: int| 0 <= i < licenses.len() ==> !is_for(#[trigger] licenses[i], mode),
        },
    decreases licenses.len(),
{
    if licenses.len() > 0 && !is_for(licenses.first(), mode) {
        let rest = licenses.drop_first();
        lemma_license_position(rest, mode);
        assert forall|i: int| 0 <= i < licenses.len() implies licenses[i] == if i == 0 {
            licenses.first()
        } else {
            rest[i - 1]
        } by {}
        match license_position(rest, mode) {
            Some(at) => {
                assert forall|i: int| 0 <= i < at + 1 implies !is_for(#[trigger] licenses[i], mode) by {
                    if i > 0 {
                        assert(licenses[i] == rest[i - 1]);
                    }
                }
            },
            None => {
                assert forall|i: int| 0 <= i < licenses.len() implies !is_for(
                    #[trigger] licenses[i],
                    mode,
                ) by {
                    if i > 0 {
                        assert(licenses[i] == rest[i - 1]);
                    }
                }
            },
        }
    }
}

/// The row of a member with one of its licenses.
pub open spec fn summary_of(member: MemberView, license: LicenseView) -> SummaryView {
    SummaryView {
        id: decimal(member.cust_id as nat),
        name: member.display_name,
        irating: decimal(license.irating as nat),
        license: license.group_name,
        sr: license.safety_rating,
    }
}

/// The row of a member for a discipline: that of its first license for the
/// discipline, or the refusal that names the member where it holds none.
pub open spec fn member_summary(member: MemberView, mode: LicenseType) -> Result<SummaryView, Error> {
    match license_position(member.licenses, mode) {
        Some(at) => Ok(summary_of(member, member.licenses[at])),
        None => Err(Error::MissingLicense(member.cust_id)),
    }
}

/// The rows of the members in order, or the refusal of the first member
/// that holds no license for the discipline.
pub open spec fn summaries(members: Seq<MemberView>, mode: LicenseType) -> Result<Seq<SummaryView>, Error>
    decreases members.len(),
{
    if members.len() == 0 {
        Ok(Seq::empty())
    } else {
        match summaries(members.drop_last(), mode) {
            Err(e) => Err(e),
            Ok(rows) => match member_summary(members.last(), mode) {
                Err(e) => Err(e),
                Ok(row) => Ok(rows.push(row)),
            },
        }
    }
}

/// The rows of a list of summaries as plain values.
pub open spec fn rows_of(rows: Seq<Summary>) -> Seq<SummaryView> {
    rows.map_values(|row: Summary| row@)
}

/// Picks the license of a member's list that is for the discipline: the
/// first such, where the list holds several.
pub fn select_license(licenses: &Vec<License>, mode: LicenseType) -> (found: Option<usize>)
    ensures
        match found {
            Some(at) => license_position(license_views(licenses@), mode) == Some(at as int),
            None => license_position(license_views(licenses@), mode) is None,
        },
        found matches Some(at) ==> at < licenses.len() && is_for(licenses@[at as int]@, mode),
        found is None ==> forall|i: int| 0 <= i < licenses.len() ==> !is_for(#[trigger] licenses@[i]@, mode),
{
    let ghost all = license_views(licenses@);
    let tag = mode.category();
    let mut at: usize = 0;
    assert(all.skip(0) =~= all);
    while at < licenses.len()
        invariant
            at <= licenses.len(),
            all == license_views(licenses@),
            tag@ == mode.tag(),
            match license_position(all.skip(at as int), mode) {
                Some(rest) => license_position(all, mode) == Some(rest + at),
                None => license_position(all, mode) is None,
            },
        decreases licenses.len() - at,
    {
        let ghost here = all.skip(at as int);
        assert(here.first() == licenses@[at as int]@);
        assert(here.drop_first() =~= all.skip(at + 1));
        if same_text(licenses[at].category.as_str(), tag) {
            proof {
                lemma_license_position(all, mode);
            }
            return Some(at);
        }
        at += 1;
    }
    proof {
        lemma_license_position(all, mode);
        assert forall|i: int| 0 <= i < licenses.len() implies !is_for(#[trigger] licenses@[i]@, mode) by {
            assert(all[i] == licenses@[i]@);
        }
    }
    None
}

/// Projects a member onto its row for a discipline.
pub fn summarize_member(member: &Member, mode: LicenseType) -> (row: Result<Summary, Error>)
    ensures
        match row {
            Ok(summary) => member_summary(member@, mode) == Ok::<SummaryView, Error>(summary@),
            Err(e) => member_summary(member@, mode) == Err::<SummaryView, Error>(e),
        },
{
    match select_license(&member.licenses, mode) {
        None => Err(Error::MissingLicense(member.cust_id)),
        Some(at) => {
            let license = &member.licenses[at];
            Ok(
                Summary {
                    id: decimal_string(member.cust_id as u64),
                    name: member.display_name.clone(),
                    irating: decimal_string(license.irating as u64),
                    license: license.group_name.clone(),
                    sr: license.safety_rating.clone(),
                },
            )
        },
    }
}

/// Projects the members onto the rows of the report, in their order. One
/// member without a license for the discipline refuses the whole report.
pub fn summarize(members: &Vec<Member>, mode: LicenseType) -> (report: Result<Vec<Summary>, Error>)
    ensures
        match report {
            Ok(rows) => summaries(member_views(members@), mode) == Ok::<Seq<SummaryView>, Error>(
                rows_of(rows@),
            ),
            Err(e) => summaries(member_views(members@), mode) == Err::<Seq<SummaryView>, Error>(e),
        },
{
    let ghost all = member_views(members@);
    let mut rows: Vec<Summary> = Vec::new();
    let mut i: usize = 0;
    assert(rows_of(rows@) =~= Seq::<SummaryView>::empty());
    while i < members.len()
        invariant
            i <= members.len(),
            all == member_views(members@),
            summaries(all.take(i as int), mode) == Ok::<Seq<SummaryView>, Error>(rows_of(rows@)),
        decreases members.len() - i,
    {
        let ghost next = all.take(i + 1);
        assert(next.drop_last() =~= all.take(i as int));
        assert(next.last() == members@[i as int]@);
        match summarize_member(&members[i], mode) {
            Err(e) => {
                proof {
                    lemma_refusal_stays(all, i + 1, mode);
                }
                return Err(e);
            },
            Ok(row) => {
                let ghost before = rows@;
                let ghost shown = row@;
                rows.push(row);
                assert(rows_of(rows@) =~= rows_of(before).push(shown));
            },
        }
        i += 1;
    }
    assert(all.take(members.len() as int) =~= all);
    Ok(rows)
}

/// A refusal among the first `count` members is the refusal of the whole list.
proof fn lemma_refusal_stays(members: Seq<MemberView>, count: int, mode: LicenseType)
    requires
        0 <= count <= members.len(),
        summaries(members.take(count), mode) is Err,
    ensures
        summaries(members, mode) == summaries(members.take(count), mode),
    decreases members.len() - count,
{
    if count < members.len() {
        let longer = members.take(count + 1);
        assert(longer.drop_last() =~= members.take(count));
        lemma_refusal_stays(members, count + 1, mode);
    } else {
        assert(members.take(count) =~= members);
    }
}

/// Titles of the table's columns.
pub open spec fn table_columns() -> Seq<Seq<char>> {
    seq!["Id"@, "Name"@, "iRating"@, "License"@, "SR"@]
}

/// Names of the export's columns.
pub open spec fn csv_columns() -> Seq<Seq<char>> {
    seq!["id"@, "name"@, "iRating"@, "license"@, "SR"@]
}

/// The cells of a row under the table's columns.
pub open spec fn table_cells(row: SummaryView) -> Seq<Seq<char>> {
    seq![row.id, row.name, row.irating, row.license, row.sr]
}

/// The fields of a row under the export's columns.
pub open spec fn csv_fields(row: SummaryView) -> Seq<Seq<char>> {
    seq![row.id, row.name, row.irating, row.license, row.sr]
}

/// The export shows what the table shows: for every row the fields of the
/// export are the cells of the table, one under each column.
pub proof fn lemma_export_matches_table(row: SummaryView)
    ensures
        csv_fields(row) == table_cells(row),
        csv_fields(row).len() == csv_columns().len(),
        table_cells(row).len() == table_columns().len(),
{
}

/// Titles of the table's columns.
pub fn table_header() -> (titles: Vec<&'static str>)
    ensures
        titles.deep_view() == table_columns(),
{
    let mut titles: Vec<&'static str> = Vec::new();
    titles.push("Id");
    titles.push("Name");
    titles.push("iRating");
    titles.push("License");
    titles.push("SR");
    assert(titles.deep_view() =~= table_columns());
    titles
}

/// Names of the export's columns.
pub fn csv_header() -> (names: Vec<&'static str>)
    ensures
        names.deep_view() == csv_columns(),
{
    let mut names: Vec<&'static str> = Vec::new();
    names.push("id");
    names.push("name");
    names.push("iRating");
    names.push("license");
    names.push("SR");
    assert(names.deep_view() =~= csv_columns());
    names
}

impl Summary {
    fn texts(&self) -> (texts: Vec<String>)
        ensures
            texts.deep_view() == seq![self.id@, self.name@, self.irating@, self.license@, self.sr@],
    {
        let mut texts: Vec<String> = Vec::new();
        texts.push(self.id.clone());
        texts.push(self.name.clone());
        texts.push(self.irating.clone());
        texts.push(self.license.clone());
        texts.push(self.sr.clone());
        assert(texts.deep_view() =~= seq![self.id@, self.name@, self.irating@, self.license@, self.sr@]);
        texts
    }

    /// The cells of the row for the table.
    pub fn table_row(&self) -> (cells: Vec<String>)
        ensures
            cells.deep_view() == table_cells(self@),
    {
        self.texts()
    }

    /// The fields of the row for the export.
    pub fn csv_record(&self) -> (fields: Vec<String>)
        ensures
            fields.deep_view() == csv_fields(self@),
            fields.deep_view() == table_cells(self@),
    {
        self.texts()
    }
}

/// The records of the export: the names of the columns, then the fields of
/// each row in order. A report without rows exports nothing, not even the names.
pub open spec fn export_records(rows: Seq<SummaryView>) -> Seq<Seq<Seq<char>>> {
    if rows.len() == 0 {
        Seq::empty()
    } else {
        seq![csv_columns()] + rows.map_values(|row: SummaryView| csv_fields(row))
    }
}

/// Behind the names of the columns the export holds, row for row, the cells
/// that the table shows.
pub proof fn lemma_export_lists_table_rows(rows: Seq<SummaryView>, at: int)
    requires
        0 <= at < rows.len(),
    ensures
        export_records(rows).len() == rows.len() + 1,
        export_records(rows)[0] == csv_columns(),
        export_records(rows)[at + 1] == table_cells(rows[at]),
{
}

/// Lays out the records of the export for the rows of a report.
pub fn csv_records(rows: &Vec<Summary>) -> (records: Vec<Vec<String>>)
    ensures
        records.deep_view() == export_records(rows_of(rows@)),
{
    let mut records: Vec<Vec<String>> = Vec::new();
    if rows.len() == 0 {
        assert(records.deep_view() =~= export_records(rows_of(rows@)));
        return records;
    }
    let names = csv_header();
    let mut header: Vec<String> = Vec::new();
    let mut k: usize = 0;
    while k < names.len()
        invariant
            k <= names.len(),
            header.len() == k,
            forall|j: int| 0 <= j < k ==> (#[trigger] header[j])@ == names[j]@,
        decreases names.len() - k,
    {
        header.push(names[k].to_owned());
        k += 1;
    }
    assert(header.deep_view() =~= names.deep_view());
    records.push(header);
    let mut i: usize = 0;
    while i < rows.len()
        invariant
            i <= rows.len(),
            records.len() == i + 1,
            records[0].deep_view() == csv_columns(),
            forall|j: int| 1 <= j <= i ==> (#[trigger] records[j]).deep_view() == csv_fields(rows[j - 1]@),
        decreases rows.len() - i,
    {
        records.push(rows[i].csv_record());
        i += 1;
    }
    proof {
        let shown = export_records(rows_of(rows@));
        assert(shown.len() == records.len());
        let laid = records.deep_view();
        assert forall|j: int| 0 <= j < records.len() implies #[trigger] laid[j] == shown[j] by {
            if j > 0 {
                assert(shown[j] == csv_fields(rows_of(rows@)[j - 1]));
            }
        }
        assert(laid =~= shown);
    }
    records
}

/// Stem of the export's name where the driver list's path has none.
pub const DEFAULT_STEM: &'static str = "drivers";

/// Name of the export: the stem of the driver list's name, a hyphen, the
/// time in seconds since the Unix epoch, and the extension `.csv`.
pub open spec fn export_name(stem: Option<Seq<char>>, unix: int) -> Seq<char> {
    let stem = match stem {
        Some(stem) => stem,
        None => DEFAULT_STEM@,
    };
    stem + "-"@ + signed_decimal(unix) + ".csv"@
}

/// Names the export that is written beside the driver list.
pub fn export_file_name(stem: Option<&str>, unix: i64) -> (name: String)
    ensures
        name@ == export_name(
            match stem {
                Some(stem) => Some(stem@),
                None => None,
            },
            unix as int,
        ),
{
    let mut name = match stem {
        Some(stem) => stem.to_owned(),
        None => DEFAULT_STEM.to_owned(),
    };
    name.append("-");
    push_signed_decimal(&mut name, unix);
    name.append(".csv");
    name
}

} // verus!
