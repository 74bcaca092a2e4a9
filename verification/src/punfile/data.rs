//! What a Punfile holds once it has been read.
use vstd::prelude::*;

verus! {

/// The `configuration` section of a Punfile.
#[derive(Debug, PartialEq, Eq)]
pub struct Configuration {
    /// The bucket directory that archives are kept under.
    pub prefix: String,
    /// The local cache location.
    pub local: String,
    /// The output cache location (where the `.xcframework`s are built to).
    pub output: String,
    /// The S3 bucket.
    pub s3_bucket: String,
}

/// A Punfile: its configuration and every framework that its dependencies name.
#[derive(Debug, PartialEq, Eq)]
pub struct PunFile {
    pub configuration: Configuration,
    pub frameworks: Vec<Repository>,
}

/// One framework of a dependency.
#[derive(Debug, PartialEq, Eq)]
pub struct Repository {
    /// The dependency (the key of its entry under `dependencies`).
    pub repo_name: String,
    /// The framework's name.
    pub name: String,
    /// The framework's version; empty when the Punfile gives none.
    pub version: String,
}

/// The abstract value of a [`Configuration`].
pub struct ConfigurationModel {
    pub prefix: Seq<char>,
    pub local: Seq<char>,
    pub output: Seq<char>,
    pub s3_bucket: Seq<char>,
}

/// The abstract value of a [`Repository`].
pub struct RepositoryModel {
    pub repo_name: Seq<char>,
    pub name: Seq<char>,
    pub version: Seq<char>,
}

/// The abstract value of a [`PunFile`].
pub struct PunFileModel {
    pub configuration: ConfigurationModel,
    pub frameworks: Seq<RepositoryModel>,
}

impl View for Configuration {
    type V = ConfigurationModel;

    open spec fn view(&self) -> ConfigurationModel {
        ConfigurationModel {
            prefix: self.prefix@,
            local: self.local@,
            output: self.output@,
            s3_bucket: self.s3_bucket@,
        }
    }
}

impl View for Repository {
    type V = RepositoryModel;

    open spec fn view(&self) -> RepositoryModel {
        RepositoryModel { repo_name: self.repo_name@, name: self.name@, version: self.version@ }
    }
}

/// The abstract values of a sequence of repositories.
pub open spec fn models(rs: Seq<Repository>) -> Seq<RepositoryModel> {
    rs.map_values(|r: Repository| r@)
}

impl View for PunFile {
    type V = PunFileModel;

    open spec fn view(&self) -> PunFileModel {
        PunFileModel { configuration: self.configuration@, frameworks: models(self.frameworks@) }
    }
}

impl Repository {
    /// A repository with the same three fields.
    pub fn duplicate(&self) -> (r: Repository)
        ensures
            r@ == self@,
    {
        Repository {
            repo_name: self.repo_name.clone(),
            name: self.name.clone(),
            version: self.version.clone(),
        }
    }
}

pub proof fn lemma_models_push(rs: Seq<Repository>, r: Repository)
    ensures
        models(rs.push(r)) == models(rs).push(r@),
{
    assert(models(rs.push(r)) =~= models(rs).push(r@));
}

pub proof fn lemma_models_add(a: Seq<Repository>, b: Seq<Repository>)
    ensures
        models(a + b) == models(a) + models(b),
{
    assert(models(a + b) =~= models(a) + models(b));
}

} // verus!
