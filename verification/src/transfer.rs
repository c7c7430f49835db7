//! The controlled write proof: a harmless artifact is uploaded into a
//! dedicated folder under `documents/`, read back, and removed again. It is
//! Kindred's only write path and never touches book content. Each device
//! call is the application's; which call comes next, and what the run
//! reports, is decided here by `TransferTest`.

use vstd::prelude::*;

use crate::error::KindredError;
use crate::inventory::{MtpObjectSummary, ObjectView, objects_view};
use crate::text::{decimal_string, radix_digits};

verus! {

broadcast use vstd::string::group_string_axioms;

/// Name prefix of the dedicated test folder created under `documents/`.
pub const TEST_FOLDER_PREFIX: &'static str = "kindling_m4_test";

/// Outcome of a controlled transfer test run.
#[derive(Debug, Clone)]
pub struct TransferTestResult {
    pub folder_name: String,
    pub uploaded_file: String,
    pub uploaded_bytes: usize,
    pub verified_readback: bool,
    pub cleaned_up: bool,
}

/// The unique test folder name: the prefix, `_`, and a decimal suffix.
pub fn test_folder_name(suffix: u64) -> (res: String)
    ensures
        res@ == "kindling_m4_test"@ + seq!['_'] + radix_digits(suffix as nat, 10, false),
{
    proof {
        reveal_strlit("_");
    }
    assert(TEST_FOLDER_PREFIX@ == "kindling_m4_test"@);
    TEST_FOLDER_PREFIX.to_owned().concat("_").concat(decimal_string(suffix).as_str())
}

/// Whether a listing holds a file (not a folder) named `name`.
pub open spec fn lists_file(objects: Seq<ObjectView>, name: Seq<char>) -> bool {
    exists|i: int| 0 <= i < objects.len() && #[trigger] objects[i].filename == name && !objects[i].is_folder
}

/// Whether the uploaded artifact shows in its folder's listing: a file, not
/// a folder, under exactly its name.
pub fn artifact_listed(objects: &[MtpObjectSummary], name: &str) -> (res: bool)
    ensures
        res == lists_file(objects_view(objects@), name@),
{
    let ghost ov = objects_view(objects@);
    let wanted = name.to_owned();
    let mut i: usize = 0;
    while i < objects.len()
        invariant
            i <= objects@.len(),
            ov == objects_view(objects@),
            wanted@ == name@,
            forall|k: int| 0 <= k < i ==> !(#[trigger] ov[k].filename == name@ && !ov[k].is_folder),
        decreases objects@.len() - i,
    {
        if objects[i].filename == wanted && !objects[i].is_folder {
            assert(ov[i as int].filename == name@);
            return true;
        }
        i = i + 1;
    }
    false
}

/// The name of the uploaded artifact.
pub const TEST_FILE_NAME: &'static str = "kindling_controlled_test.txt";

/// The artifact's content: `kindling controlled transfer test` and a line
/// feed, 34 bytes.
pub open spec fn test_payload() -> Seq<u8> {
    seq![107u8, 105u8, 110u8, 100u8, 108u8, 105u8, 110u8, 103u8, 32u8, 99u8, 111u8, 110u8, 116u8, 114u8, 111u8, 108u8, 108u8, 101u8, 100u8, 32u8, 116u8, 114u8, 97u8, 110u8, 115u8, 102u8, 101u8, 114u8, 32u8, 116u8, 101u8, 115u8, 116u8, 10u8]
}

/// The artifact's content.
pub fn test_payload_bytes() -> (res: Vec<u8>)
    ensures
        res@ == test_payload(),
{
    let v: Vec<u8> = vec![107u8, 105u8, 110u8, 100u8, 108u8, 105u8, 110u8, 103u8, 32u8, 99u8, 111u8, 110u8, 116u8, 114u8, 111u8, 108u8, 108u8, 101u8, 100u8, 32u8, 116u8, 114u8, 97u8, 110u8, 115u8, 102u8, 101u8, 114u8, 32u8, 116u8, 101u8, 115u8, 116u8, 10u8];
    assert(v@ =~= test_payload());
    v
}

/// Whether two byte strings are equal.
pub fn bytes_eq(a: &[u8], b: &[u8]) -> (res: bool)
    ensures
        res == (a@ == b@),
{
    if a.len() != b.len() {
        return false;
    }
    let mut i: usize = 0;
    while i < a.len()
        invariant
            i <= a@.len(),
            a@.len() == b@.len(),
            forall|k: int| 0 <= k < i ==> a@[k] == b@[k],
        decreases a@.len() - i,
    {
        if a[i] != b[i] {
            return false;
        }
        i = i + 1;
    }
    assert(a@ =~= b@);
    true
}

/// Where a transfer test stands: which report it waits for.
#[derive(Debug, Clone, Copy, PartialEq, Eq, Structural)]
pub enum TestStage {
    /// The test folder is being created.
    Creating,
    /// The artifact is being uploaded into the test folder.
    Uploading,
    /// The test folder is being listed.
    Listing,
    /// The artifact is being read back.
    Reading,
    /// The artifact is being deleted.
    RemovingFile,
    /// The test folder is being deleted.
    RemovingFolder,
    /// After a failure, the test folder is being deleted.
    CleaningUp,
    /// The test is over.
    Over,
}

/// What the application reports of the device call it was asked to make.
#[derive(Debug)]
pub enum TestEvent {
    /// The folder was created with this handle.
    Created(u64),
    /// The artifact was uploaded with this handle.
    Uploaded(u64),
    /// The folder lists these objects.
    Listed(Vec<MtpObjectSummary>),
    /// The artifact reads back as these bytes.
    Downloaded(Vec<u8>),
    /// The object was deleted.
    Deleted,
    /// The call failed.
    Failed(KindredError),
}

/// The device call to make next, or the end of the test.
#[derive(Debug)]
pub enum TestAction {
    /// Create a folder called `name` under `parent`.
    CreateFolder { parent: u64, name: String },
    /// Upload a file called `name` holding `data` into `parent`.
    Upload { parent: u64, name: String, data: Vec<u8> },
    /// List the children of this folder.
    List(u64),
    /// Read this object's bytes.
    Download(u64),
    /// Delete this object.
    Delete(u64),
    /// The test passed through; this is its outcome.
    Finish(TransferTestResult),
    /// The test failed with this error (after removing the test folder, when
    /// one was created).
    Fail(KindredError),
}

/// A controlled transfer test in progress.
#[derive(Debug)]
pub struct TransferTest {
    pub stage: TestStage,
    pub folder_name: String,
    /// The test folder, once created.
    pub folder: u64,
    /// The uploaded artifact, once uploaded.
    pub file: u64,
    /// Whether the artifact read back byte for byte.
    pub verified: bool,
    /// The failure being reported once the folder is cleaned up.
    pub failure: Option<KindredError>,
}

/// Whether a report answers the call a test at `stage` asked for.
pub open spec fn answers(stage: TestStage, event: TestEvent) -> bool {
    match stage {
        TestStage::Creating => event is Created || event is Failed,
        TestStage::Uploading => event is Uploaded || event is Failed,
        TestStage::Listing => event is Listed || event is Failed,
        TestStage::Reading => event is Downloaded || event is Failed,
        TestStage::RemovingFile | TestStage::RemovingFolder | TestStage::CleaningUp => event is Deleted
            || event is Failed,
        TestStage::Over => false,
    }
}

/// Whether a test folder exists on the device at `stage`.
pub open spec fn folder_exists(stage: TestStage) -> bool {
    stage != TestStage::Creating && stage != TestStage::Over
}

impl TransferTest {
    /// Begin a test under the `documents/` folder `documents`, naming the
    /// test folder after `now_unix`: the first call creates that folder.
    pub fn start(documents: u64, now_unix: u64) -> (res: (TransferTest, TestAction))
        ensures
            res.0.stage == TestStage::Creating,
            res.0.failure is None,
            res.0.folder_name@ == "kindling_m4_test"@ + seq!['_'] + radix_digits(
                now_unix as nat,
                10,
                false,
            ),
            res.1 matches TestAction::CreateFolder { parent, name } && parent == documents && name@
                == res.0.folder_name@,
    {
        let folder_name = test_folder_name(now_unix);
        let name = folder_name.clone();
        (
            TransferTest { stage: TestStage::Creating, folder_name, folder: 0, file: 0, verified: false, failure: None },
            TestAction::CreateFolder { parent: documents, name },
        )
    }

    /// The stage the test is at.
    pub fn stage(&self) -> (res: TestStage)
        ensures
            res == self.stage,
    {
        self.stage
    }

    /// Whether `step` may be given `event` now: it answers the call last
    /// asked for.
    pub fn accepts(&self, event: &TestEvent) -> (res: bool)
        ensures
            res == (answers(self.stage, *event) && (self.stage == TestStage::CleaningUp
                ==> self.failure is Some)),
    {
        let answered = match self.stage {
            TestStage::Creating => matches!(event, TestEvent::Created(_) | TestEvent::Failed(_)),
            TestStage::Uploading => matches!(event, TestEvent::Uploaded(_) | TestEvent::Failed(_)),
            TestStage::Listing => matches!(event, TestEvent::Listed(_) | TestEvent::Failed(_)),
            TestStage::Reading => matches!(event, TestEvent::Downloaded(_) | TestEvent::Failed(_)),
            TestStage::RemovingFile | TestStage::RemovingFolder | TestStage::CleaningUp => matches!(
                event,
                TestEvent::Deleted | TestEvent::Failed(_)
            ),
            TestStage::Over => false,
        };
        answered && (self.stage != TestStage::CleaningUp || self.failure.is_some())
    }

    fn clean_up(self, error: KindredError) -> (res: (TransferTest, TestAction))
        ensures
            res.0.stage == TestStage::CleaningUp,
            res.0.folder == self.folder,
            res.0.folder_name == self.folder_name,
            res.0.failure == Some(error),
            res.1 == TestAction::Delete(self.folder),
    {
        let folder = self.folder;
        (
            TransferTest { stage: TestStage::CleaningUp, failure: Some(error), ..self },
            TestAction::Delete(folder),
        )
    }

    /// Report the outcome of the last call.
    ///
    /// The artifact is uploaded only into the created folder; after a
    /// failure once the folder exists, the next call deletes the folder and
    /// the test then fails; nothing but the test folder and the artifact is
    /// ever deleted.
    pub fn step(self, event: TestEvent) -> (res: (TransferTest, TestAction))
        requires
            self.stage == TestStage::CleaningUp ==> self.failure is Some,
            answers(self.stage, event),
        ensures
            res.0.folder_name == self.folder_name,
            res.0.stage == TestStage::CleaningUp ==> res.0.failure is Some,
            res.1 matches TestAction::Delete(h) ==> (h == res.0.folder || h == res.0.file),
            event matches TestEvent::Failed(e) ==> if folder_exists(self.stage) {
                if self.stage == TestStage::CleaningUp {
                    res.0.stage == TestStage::Over && res.1 == TestAction::Fail(self.failure.unwrap())
                } else {
                    res.0.stage == TestStage::CleaningUp && res.0.folder == self.folder
                        && res.0.failure == Some(e) && res.1 == TestAction::Delete(self.folder)
                }
            } else {
                res.0.stage == TestStage::Over && res.1 == TestAction::Fail(e)
            },
            self.stage == TestStage::Creating ==> (event matches TestEvent::Created(h) ==> (
                res.0.stage == TestStage::Uploading && res.0.folder == h && (res.1 matches TestAction::Upload {
                    parent,
                    name,
                    data,
                } && parent == h && name@ == "kindling_controlled_test.txt"@ && data@ == test_payload())
            )),
            self.stage == TestStage::Uploading ==> (event matches TestEvent::Uploaded(f) ==> (
                res.0.stage == TestStage::Listing && res.0.folder == self.folder && res.0.file == f
                    && res.1 == TestAction::List(self.folder)
            )),
            self.stage == TestStage::Listing ==> (event matches TestEvent::Listed(objects) ==> if lists_file(
                objects_view(objects@),
                "kindling_controlled_test.txt"@,
            ) {
                res.0.stage == TestStage::Reading && res.0.folder == self.folder && res.0.file
                    == self.file && res.1 == TestAction::Download(self.file)
            } else {
                res.0.stage == TestStage::CleaningUp && res.0.folder == self.folder && (res.0.failure matches Some(
                    KindredError::InvalidObject { message },
                ) && message@ == "uploaded artifact not found in test folder"@) && res.1
                    == TestAction::Delete(self.folder)
            }),
            self.stage == TestStage::Reading ==> (event matches TestEvent::Downloaded(bytes) ==> (
                res.0.stage == TestStage::RemovingFile && res.0.folder == self.folder && res.0.file
                    == self.file && res.0.verified == (bytes@ == test_payload()) && res.1
                    == TestAction::Delete(self.file)
            )),
            self.stage == TestStage::RemovingFile ==> (event is Deleted ==> (res.0.stage
                == TestStage::RemovingFolder && res.0.folder == self.folder && res.0.verified
                == self.verified && res.1 == TestAction::Delete(self.folder))),
            self.stage == TestStage::RemovingFolder ==> (event is Deleted ==> (res.0.stage
                == TestStage::Over && (res.1 matches TestAction::Finish(r) && r.folder_name
                == self.folder_name && r.uploaded_file@ == "kindling_controlled_test.txt"@
                && r.uploaded_bytes == 34 && r.verified_readback == self.verified && r.cleaned_up))),
            self.stage == TestStage::CleaningUp ==> (event is Deleted ==> (res.0.stage == TestStage::Over
                && res.1 == TestAction::Fail(self.failure.unwrap()))),
    {
        proof {
            reveal_strlit("kindling_controlled_test.txt");
        }
        assert(TEST_FILE_NAME@ == "kindling_controlled_test.txt"@);
        let mut test = self;
        match event {
            TestEvent::Failed(error) => {
                match test.stage {
                    TestStage::Creating => {
                        test.stage = TestStage::Over;
                        (test, TestAction::Fail(error))
                    },
                    TestStage::CleaningUp => {
                        let failure = test.failure.take();
                        test.stage = TestStage::Over;
                        match failure {
                            Some(f) => (test, TestAction::Fail(f)),
                            None => (test, TestAction::Fail(error)),
                        }
                    },
                    _ => test.clean_up(error),
                }
            },
            TestEvent::Created(h) => {
                test.stage = TestStage::Uploading;
                test.folder = h;
                let data = test_payload_bytes();
                (test, TestAction::Upload { parent: h, name: TEST_FILE_NAME.to_owned(), data })
            },
            TestEvent::Uploaded(f) => {
                test.stage = TestStage::Listing;
                test.file = f;
                let folder = test.folder;
                (test, TestAction::List(folder))
            },
            TestEvent::Listed(objects) => {
                if artifact_listed(objects.as_slice(), TEST_FILE_NAME) {
                    test.stage = TestStage::Reading;
                    let file = test.file;
                    (test, TestAction::Download(file))
                } else {
                    test.clean_up(
                        KindredError::InvalidObject {
                            message: "uploaded artifact not found in test folder".to_owned(),
                        },
                    )
                }
            },
            TestEvent::Downloaded(bytes) => {
                let payload = test_payload_bytes();
                test.verified = bytes_eq(bytes.as_slice(), payload.as_slice());
                test.stage = TestStage::RemovingFile;
                let file = test.file;
                (test, TestAction::Delete(file))
            },
            TestEvent::Deleted => {
                match test.stage {
                    TestStage::RemovingFile => {
                        test.stage = TestStage::RemovingFolder;
                        let folder = test.folder;
                        (test, TestAction::Delete(folder))
                    },
                    TestStage::RemovingFolder => {
                        test.stage = TestStage::Over;
                        let result = TransferTestResult {
                            folder_name: test.folder_name.clone(),
                            uploaded_file: TEST_FILE_NAME.to_owned(),
                            uploaded_bytes: 34,
                            verified_readback: test.verified,
                            cleaned_up: true,
                        };
                        (test, TestAction::Finish(result))
                    },
                    _ => {
                        let failure = test.failure.take();
                        test.stage = TestStage::Over;
                        match failure {
                            Some(f) => (test, TestAction::Fail(f)),
                            None => (test, TestAction::Fail(KindredError::NotFound)),
                        }
                    },
                }
            },
        }
    }
}

} // verus!
