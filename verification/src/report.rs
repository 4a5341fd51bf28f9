//! Where the timing report puts what it is given: one sheet per run, with a
//! fixed frame of titles, a column of named timings with their total, and two
//! columns of processor and memory samples with their averages.
//!
//! Only the placement is decided here. Writing the cells, and the sums and
//! averages of the samples, are left to the caller.

use vstd::prelude::*;
use vstd::string::*;

verus! {

/// The column of the row titles.
pub const TITLE_COLUMN: u16 = 0;

/// The column of the timings, of their total and of the two averages.
pub const TIME_COLUMN: u16 = 1;

/// The column of the processor samples.
pub const CPU_COLUMN: u16 = 3;

/// The column of the memory samples.
pub const RAM_COLUMN: u16 = 4;

/// The row of the column titles.
pub const HEADER_ROW: u32 = 0;

/// The row of the total of the timings.
pub const TOTAL_ROW: u32 = 6;

/// The row of the average of the processor samples.
pub const AVERAGE_CPU_ROW: u32 = 8;

/// The row of the average of the memory samples.
pub const AVERAGE_RAM_ROW: u32 = 9;

/// A timing that the report knows by name.
#[derive(Clone, Copy, Debug, PartialEq, Eq, Structural)]
pub enum Measure {
    GeneratingJson,
    IterateIteratively,
    IterateRecursively,
    DeserializeJson,
    SerializeJson,
}

/// A timing came under a name that the report does not know.
#[derive(Debug)]
pub struct InvalidTestType {
    pub test_name: String,
}

impl InvalidTestType {
    /// The text of the error, which ends in the name that was refused.
    pub fn message(&self) -> (text: String)
        ensures
            text@ == "Invalid test type: "@ + self.test_name@,
    {
        "Invalid test type: ".to_owned().concat(self.test_name.as_str())
    }
}

impl Measure {
    /// The timing that goes by `name`, if there is one.
    pub open spec fn named(name: Seq<char>) -> Option<Measure> {
        if name == "Test Generating JSON"@ {
            Some(Measure::GeneratingJson)
        } else if name == "Test Iterate Iteratively"@ {
            Some(Measure::IterateIteratively)
        } else if name == "Test Iterate Recursively"@ {
            Some(Measure::IterateRecursively)
        } else if name == "Test Deserialize JSON"@ {
            Some(Measure::DeserializeJson)
        } else if name == "Test Serialize JSON"@ {
            Some(Measure::SerializeJson)
        } else {
            None
        }
    }

    /// The row of this timing, in the column of the timings and in the column
    /// of the row titles.
    pub open spec fn spec_row(self) -> u32 {
        match self {
            Measure::GeneratingJson => 1,
            Measure::IterateIteratively => 2,
            Measure::IterateRecursively => 3,
            Measure::DeserializeJson => 4,
            Measure::SerializeJson => 5,
        }
    }

    /// The title of the row of this timing.
    pub open spec fn spec_title(self) -> Seq<char> {
        match self {
            Measure::GeneratingJson => "Generating JSON"@,
            Measure::IterateIteratively => "Iterating JSON Iteratively - BFS"@,
            Measure::IterateRecursively => "Iterating JSON Recursively - DFS"@,
            Measure::DeserializeJson => "Deserializing JSON"@,
            Measure::SerializeJson => "Srializing JSON"@,
        }
    }

    /// Tells the timing by its name. A name that the report does not know is
    /// refused, and handed back in the error.
    pub fn from_name(test_name: &str) -> (measure: Result<Measure, InvalidTestType>)
        ensures
            match measure {
                Ok(known) => Measure::named(test_name@) == Some(known),
                Err(refused) => Measure::named(test_name@) is None && refused.test_name@
                    == test_name@,
            },
    {
        let name = test_name.to_owned();
        if name == "Test Generating JSON".to_owned() {
            Ok(Measure::GeneratingJson)
        } else if name == "Test Iterate Iteratively".to_owned() {
            Ok(Measure::IterateIteratively)
        } else if name == "Test Iterate Recursively".to_owned() {
            Ok(Measure::IterateRecursively)
        } else if name == "Test Deserialize JSON".to_owned() {
            Ok(Measure::DeserializeJson)
        } else if name == "Test Serialize JSON".to_owned() {
            Ok(Measure::SerializeJson)
        } else {
            Err(InvalidTestType { test_name: name })
        }
    }

    /// The title of the row of this timing.
    pub fn title(self) -> (text: &'static str)
        ensures
            text@ == self.spec_title(),
    {
        match self {
            Measure::GeneratingJson => "Generating JSON",
            Measure::IterateIteratively => "Iterating JSON Iteratively - BFS",
            Measure::IterateRecursively => "Iterating JSON Recursively - DFS",
            Measure::DeserializeJson => "Deserializing JSON",
            Measure::SerializeJson => "Srializing JSON",
        }
    }

    /// The row of this timing.
    #[verifier::when_used_as_spec(spec_row)]
    pub fn row(self) -> (row: u32)
        ensures
            row == self.spec_row(),
    {
        match self {
            Measure::GeneratingJson => 1,
            Measure::IterateIteratively => 2,
            Measure::IterateRecursively => 3,
            Measure::DeserializeJson => 4,
            Measure::SerializeJson => 5,
        }
    }
}


/// The row of the sample that comes after `sample_index` others: the samples
/// stand below the header, one row each. There is no row for a sample whose
/// row would not fit in a row number.
pub fn usage_row(sample_index: u32) -> (row: Option<u32>)
    ensures
        row == if sample_index < u32::MAX {
            Some((sample_index + 1) as u32)
        } else {
            None
        },
{
    if sample_index < u32::MAX {
        Some(sample_index + 1)
    } else {
        None
    }
}

/// The timing whose row is `row`, if there is one.
pub open spec fn measure_of_row(row: u32) -> Option<Measure> {
    if row == 1 {
        Some(Measure::GeneratingJson)
    } else if row == 2 {
        Some(Measure::IterateIteratively)
    } else if row == 3 {
        Some(Measure::IterateRecursively)
    } else if row == 4 {
        Some(Measure::DeserializeJson)
    } else if row == 5 {
        Some(Measure::SerializeJson)
    } else {
        None
    }
}

/// The title that the frame of a sheet has at a cell, if it has one there.
///
/// The column of the row titles names the timings, each in its own row, then
/// their total and the two averages. The header names the columns.
pub open spec fn title_at(row: u32, column: u16) -> Option<Seq<char>> {
    if column == TITLE_COLUMN {
        if row == HEADER_ROW {
            Some("Title"@)
        } else if measure_of_row(row) is Some {
            Some(measure_of_row(row).unwrap().spec_title())
        } else if row == TOTAL_ROW {
            Some("Total"@)
        } else if row == AVERAGE_CPU_ROW {
            Some("Average CPU (%)"@)
        } else if row == AVERAGE_RAM_ROW {
            Some("Average RAN (MB)"@)
        } else {
            None
        }
    } else if row == HEADER_ROW {
        if column == TIME_COLUMN {
            Some("Time (ms)"@)
        } else if column == CPU_COLUMN {
            Some("CPU (%)"@)
        } else if column == RAM_COLUMN {
            Some("RAM (MB)"@)
        } else {
            None
        }
    } else {
        None
    }
}

/// A title of the frame: its cell, its text, and whether it is centred.
#[derive(Debug)]
pub struct Title {
    pub row: u32,
    pub column: u16,
    pub text: String,
    pub centered: bool,
}

impl Title {
    /// Whether this is a title of the frame, as the frame has it: at a cell
    /// that has a title, with that text, and centred exactly in the header.
    pub open spec fn in_frame(self) -> bool {
        &&& title_at(self.row, self.column) == Some(self.text@)
        &&& self.centered == (self.row == HEADER_ROW)
    }
}

fn frame_title(row: u32, column: u16, text: &str) -> (title: Title)
    ensures
        title.row == row,
        title.column == column,
        title.text@ == text@,
        title.centered == (row == HEADER_ROW),
{
    Title { row, column, text: text.to_owned(), centered: row == HEADER_ROW }
}

fn measure_title(measure: Measure) -> (title: Title)
    ensures
        title.row == measure.spec_row(),
        title.column == TITLE_COLUMN,
        title.text@ == measure.spec_title(),
        !title.centered,
{
    frame_title(measure.row(), TITLE_COLUMN, measure.title())
}

/// The frame of a sheet: every title of it, each once.
pub fn titles() -> (frame: Vec<Title>)
    ensures
        forall|i: int| 0 <= i < frame@.len() ==> (#[trigger] frame@[i]).in_frame(),
        forall|i: int, j: int|
            0 <= i < j < frame@.len() ==> !((#[trigger] frame@[i]).row == (#[trigger] frame@[j]).row
                && frame@[i].column == frame@[j].column),
        forall|row: u32, column: u16| #[trigger]
            title_at(row, column) is Some ==> exists|i: int|
                0 <= i < frame@.len() && (#[trigger] frame@[i]).row == row && frame@[i].column
                    == column,
{
    let mut frame: Vec<Title> = Vec::new();
    frame.push(frame_title(HEADER_ROW, TITLE_COLUMN, "Title"));
    frame.push(measure_title(Measure::GeneratingJson));
    frame.push(measure_title(Measure::IterateIteratively));
    frame.push(measure_title(Measure::IterateRecursively));
    frame.push(measure_title(Measure::DeserializeJson));
    frame.push(measure_title(Measure::SerializeJson));
    frame.push(frame_title(TOTAL_ROW, TITLE_COLUMN, "Total"));
    frame.push(frame_title(AVERAGE_CPU_ROW, TITLE_COLUMN, "Average CPU (%)"));
    frame.push(frame_title(AVERAGE_RAM_ROW, TITLE_COLUMN, "Average RAN (MB)"));
    frame.push(frame_title(HEADER_ROW, TIME_COLUMN, "Time (ms)"));
    frame.push(frame_title(HEADER_ROW, CPU_COLUMN, "CPU (%)"));
    frame.push(frame_title(HEADER_ROW, RAM_COLUMN, "RAM (MB)"));
    proof {
        // Each cell that has a title is named once here, to find it in the frame.
        assert(frame@[0].row == HEADER_ROW && frame@[0].column == TITLE_COLUMN);
        assert(frame@[1].row == 1 && frame@[1].column == TITLE_COLUMN);
        assert(frame@[2].row == 2 && frame@[2].column == TITLE_COLUMN);
        assert(frame@[3].row == 3 && frame@[3].column == TITLE_COLUMN);
        assert(frame@[4].row == 4 && frame@[4].column == TITLE_COLUMN);
        assert(frame@[5].row == 5 && frame@[5].column == TITLE_COLUMN);
        assert(frame@[6].row == TOTAL_ROW && frame@[6].column == TITLE_COLUMN);
        assert(frame@[7].row == AVERAGE_CPU_ROW && frame@[7].column == TITLE_COLUMN);
        assert(frame@[8].row == AVERAGE_RAM_ROW && frame@[8].column == TITLE_COLUMN);
        assert(frame@[9].row == HEADER_ROW && frame@[9].column == TIME_COLUMN);
        assert(frame@[10].row == HEADER_ROW && frame@[10].column == CPU_COLUMN);
        assert(frame@[11].row == HEADER_ROW && frame@[11].column == RAM_COLUMN);
    }
    frame
}

} // verus!
