//! Listing the projects the registry and the managed store know.
use vstd::prelude::*;

verus! {

use crate::error::AppError;
use crate::error::ErrorKind;
use crate::projects::ProjectsRetriever;
use crate::projects::unassoc_names;

/// Which projects the caller wants.
#[derive(PartialEq, Eq, Structural, Debug, Clone, Copy)]
pub enum ListFilter {
    All,
    OnlyAssociated,
    OnlyUnassociated,
}

/// The listing: each side is present exactly when the filter asked for it.
#[derive(Debug)]
pub struct ListReport {
    pub associated: Option<Vec<String>>,
    pub unassociated: Option<Vec<String>>,
}

/// Handler for listing projects.
pub struct ListCommand {
    pub projects_retriever: ProjectsRetriever,
}

impl ListCommand {
    pub fn new(projects_retriever: &ProjectsRetriever) -> (r: ListCommand)
        ensures
            r.projects_retriever.app_config.model() == projects_retriever.app_config.model(),
    {
        ListCommand {
            projects_retriever: ProjectsRetriever::new(
                projects_retriever.app_config.clone(),
                &projects_retriever.locations_provider,
            ),
        }
    }

    /// The names the filter asks for: the registered projects in registry
    /// order, the unassociated ones in managed-store order, or both.
    /// `disk_projects` is the list of project names found on disk under the
    /// managed store root; it is consulted only when unassociated projects
    /// are asked for.
    pub fn list(&self, filter: ListFilter, disk_projects: &Vec<String>) -> (r: Result<
        ListReport,
        AppError,
    >)
        ensures
            filter != ListFilter::OnlyAssociated && disk_projects@.len()
                < self.projects_retriever.app_config.model().len() ==> (r matches Err(e) && e.kind
                == ErrorKind::RegistryInconsistent),
            filter == ListFilter::OnlyAssociated || disk_projects@.len()
                >= self.projects_retriever.app_config.model().len() ==> (r matches Ok(rep) && {
                &&& if filter == ListFilter::OnlyUnassociated {
                    rep.associated is None
                } else {
                    rep.associated matches Some(v) && v@.len()
                        == self.projects_retriever.app_config.model().len() && forall|i: int|
                        0 <= i < v@.len() ==> (#[trigger] v@[i])@
                            == self.projects_retriever.app_config.model()[i].name
                }
                &&& if filter == ListFilter::OnlyAssociated {
                    rep.unassociated is None
                } else {
                    rep.unassociated matches Some(v) && v.deep_view() == unassoc_names(
                        disk_projects.deep_view(),
                        self.projects_retriever.app_config.model(),
                    )
                }
            }),
    {
        let associated: Option<Vec<String>> = if matches!(filter, ListFilter::OnlyUnassociated) {
            None
        } else {
            Some(self.projects_retriever.get_associated_projects())
        };
        let unassociated: Option<Vec<String>> = if matches!(filter, ListFilter::OnlyAssociated) {
            None
        } else {
            match self.projects_retriever.get_unassociated_projects(disk_projects) {
                Ok(v) => Some(v),
                Err(e) => {
                    return Err(e);
                },
            }
        };
        Ok(ListReport { associated, unassociated })
    }
}

} // verus!
